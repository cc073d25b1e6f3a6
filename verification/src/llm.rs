//! Language-model settings: provider kinds, model capabilities, base URLs
//! and the replies given without a remote provider.
use crate::config::{key_pos, Config, LlmModel, LlmProvider, ModelCapability};
use crate::error::KimiCliError;
use crate::launch::{copy_caps, key_index};
use crate::text::{
    append_vec, chars_of, eq_vec, find_sub_exec, find_sub_from, lemma_find_sub_from, string_of,
    to_lowercase, to_lowercase_result, trim, trim_end_char, trim_vec, copy_strings, strings_view,
};
use vstd::prelude::*;

verus! {

/// Supported LLM provider types.
#[derive(Debug, Clone, Copy, PartialEq, Eq, Hash, Structural)]
pub enum ProviderType {
    Kimi,
    OpenAiLegacy,
    OpenAiResponses,
    Anthropic,
    GoogleGenAi,
    Gemini,
    VertexAi,
    Echo,
    ScriptedEcho,
    Chaos,
}

/// The name a provider type is written with in configuration.
pub open spec fn provider_name_spec(p: ProviderType) -> Seq<char> {
    match p {
        ProviderType::Kimi => "kimi"@,
        ProviderType::OpenAiLegacy => "openai_legacy"@,
        ProviderType::OpenAiResponses => "openai_responses"@,
        ProviderType::Anthropic => "anthropic"@,
        ProviderType::GoogleGenAi => "google_genai"@,
        ProviderType::Gemini => "gemini"@,
        ProviderType::VertexAi => "vertex_ai"@,
        ProviderType::Echo => "_echo"@,
        ProviderType::ScriptedEcho => "_scripted_echo"@,
        ProviderType::Chaos => "_chaos"@,
    }
}

/// The provider type a configuration name stands for: the type with that
/// name, if any.
pub open spec fn provider_from_name_spec(n: Seq<char>) -> Option<ProviderType> {
    if n == "kimi"@ {
        Some(ProviderType::Kimi)
    } else if n == "openai_legacy"@ {
        Some(ProviderType::OpenAiLegacy)
    } else if n == "openai_responses"@ {
        Some(ProviderType::OpenAiResponses)
    } else if n == "anthropic"@ {
        Some(ProviderType::Anthropic)
    } else if n == "google_genai"@ {
        Some(ProviderType::GoogleGenAi)
    } else if n == "gemini"@ {
        Some(ProviderType::Gemini)
    } else if n == "vertex_ai"@ {
        Some(ProviderType::VertexAi)
    } else if n == "_echo"@ {
        Some(ProviderType::Echo)
    } else if n == "_scripted_echo"@ {
        Some(ProviderType::ScriptedEcho)
    } else if n == "_chaos"@ {
        Some(ProviderType::Chaos)
    } else {
        None
    }
}

/// Reading back the name of a provider type gives that type.
pub proof fn lemma_provider_name_roundtrip(p: ProviderType)
    ensures
        provider_from_name_spec(provider_name_spec(p)) == Some(p),
{
    reveal_strlit("kimi");
    reveal_strlit("openai_legacy");
    reveal_strlit("openai_responses");
    reveal_strlit("anthropic");
    reveal_strlit("google_genai");
    reveal_strlit("gemini");
    reveal_strlit("vertex_ai");
    reveal_strlit("_echo");
    reveal_strlit("_scripted_echo");
    reveal_strlit("_chaos");
    match p {
        ProviderType::Kimi => {
        },
        ProviderType::OpenAiLegacy => {
            assert("openai_legacy"@[0] != "kimi"@[0]);
        },
        ProviderType::OpenAiResponses => {
            assert("openai_responses"@[0] != "kimi"@[0]);
            assert("openai_responses"@[7] != "openai_legacy"@[7]);
        },
        ProviderType::Anthropic => {
            assert("anthropic"@[0] != "kimi"@[0]);
            assert("anthropic"@[0] != "openai_legacy"@[0]);
            assert("anthropic"@[0] != "openai_responses"@[0]);
        },
        ProviderType::GoogleGenAi => {
            assert("google_genai"@[0] != "kimi"@[0]);
            assert("google_genai"@[0] != "openai_legacy"@[0]);
            assert("google_genai"@[0] != "openai_responses"@[0]);
            assert("google_genai"@[0] != "anthropic"@[0]);
        },
        ProviderType::Gemini => {
            assert("gemini"@[0] != "kimi"@[0]);
            assert("gemini"@[0] != "openai_legacy"@[0]);
            assert("gemini"@[0] != "openai_responses"@[0]);
            assert("gemini"@[0] != "anthropic"@[0]);
            assert("gemini"@[1] != "google_genai"@[1]);
        },
        ProviderType::VertexAi => {
            assert("vertex_ai"@[0] != "kimi"@[0]);
            assert("vertex_ai"@[0] != "openai_legacy"@[0]);
            assert("vertex_ai"@[0] != "openai_responses"@[0]);
            assert("vertex_ai"@[0] != "anthropic"@[0]);
            assert("vertex_ai"@[0] != "google_genai"@[0]);
            assert("vertex_ai"@[0] != "gemini"@[0]);
        },
        ProviderType::Echo => {
            assert("_echo"@[0] != "kimi"@[0]);
            assert("_echo"@[0] != "openai_legacy"@[0]);
            assert("_echo"@[0] != "openai_responses"@[0]);
            assert("_echo"@[0] != "anthropic"@[0]);
            assert("_echo"@[0] != "google_genai"@[0]);
            assert("_echo"@[0] != "gemini"@[0]);
            assert("_echo"@[0] != "vertex_ai"@[0]);
        },
        ProviderType::ScriptedEcho => {
            assert("_scripted_echo"@[0] != "kimi"@[0]);
            assert("_scripted_echo"@[0] != "openai_legacy"@[0]);
            assert("_scripted_echo"@[0] != "openai_responses"@[0]);
            assert("_scripted_echo"@[0] != "anthropic"@[0]);
            assert("_scripted_echo"@[0] != "google_genai"@[0]);
            assert("_scripted_echo"@[0] != "gemini"@[0]);
            assert("_scripted_echo"@[0] != "vertex_ai"@[0]);
            assert("_scripted_echo"@[1] != "_echo"@[1]);
        },
        ProviderType::Chaos => {
            assert("_chaos"@[0] != "kimi"@[0]);
            assert("_chaos"@[0] != "openai_legacy"@[0]);
            assert("_chaos"@[0] != "openai_responses"@[0]);
            assert("_chaos"@[0] != "anthropic"@[0]);
            assert("_chaos"@[0] != "google_genai"@[0]);
            assert("_chaos"@[0] != "gemini"@[0]);
            assert("_chaos"@[0] != "vertex_ai"@[0]);
            assert("_chaos"@[1] != "_echo"@[1]);
            assert("_chaos"@[1] != "_scripted_echo"@[1]);
        },
    }
}

/// Provider types that answer locally, without a base URL.
pub open spec fn is_local_spec(p: ProviderType) -> bool {
    p == ProviderType::Echo || p == ProviderType::ScriptedEcho || p == ProviderType::Chaos
}

impl ProviderType {
    /// The provider type's name.
    pub fn to_string(&self) -> (r: String)
        ensures
            r@ == provider_name_spec(*self),
    {
        match self {
            ProviderType::Kimi => "kimi".to_string(),
            ProviderType::OpenAiLegacy => "openai_legacy".to_string(),
            ProviderType::OpenAiResponses => "openai_responses".to_string(),
            ProviderType::Anthropic => "anthropic".to_string(),
            ProviderType::GoogleGenAi => "google_genai".to_string(),
            ProviderType::Gemini => "gemini".to_string(),
            ProviderType::VertexAi => "vertex_ai".to_string(),
            ProviderType::Echo => "_echo".to_string(),
            ProviderType::ScriptedEcho => "_scripted_echo".to_string(),
            ProviderType::Chaos => "_chaos".to_string(),
        }
    }

    /// The provider type with the given name (see `provider_from_name_spec`).
    pub fn from_name(s: &str) -> (r: Option<ProviderType>)
        ensures
            r == provider_from_name_spec(s@),
    {
        let v = chars_of(s);
        if eq_vec(&v, &chars_of("kimi")) {
            Some(ProviderType::Kimi)
        } else if eq_vec(&v, &chars_of("openai_legacy")) {
            Some(ProviderType::OpenAiLegacy)
        } else if eq_vec(&v, &chars_of("openai_responses")) {
            Some(ProviderType::OpenAiResponses)
        } else if eq_vec(&v, &chars_of("anthropic")) {
            Some(ProviderType::Anthropic)
        } else if eq_vec(&v, &chars_of("google_genai")) {
            Some(ProviderType::GoogleGenAi)
        } else if eq_vec(&v, &chars_of("gemini")) {
            Some(ProviderType::Gemini)
        } else if eq_vec(&v, &chars_of("vertex_ai")) {
            Some(ProviderType::VertexAi)
        } else if eq_vec(&v, &chars_of("_echo")) {
            Some(ProviderType::Echo)
        } else if eq_vec(&v, &chars_of("_scripted_echo")) {
            Some(ProviderType::ScriptedEcho)
        } else if eq_vec(&v, &chars_of("_chaos")) {
            Some(ProviderType::Chaos)
        } else {
            None
        }
    }

    /// Whether the provider answers locally (echo, scripted echo, chaos).
    pub fn is_local(&self) -> (r: bool)
        ensures
            r == is_local_spec(*self),
    {
        match self {
            ProviderType::Echo | ProviderType::ScriptedEcho | ProviderType::Chaos => true,
            _ => false,
        }
    }
}

/// All defined model capabilities.
pub fn all_model_capabilities() -> (r: Vec<ModelCapability>)
    ensures
        r@ == seq![
            ModelCapability::ImageIn,
            ModelCapability::VideoIn,
            ModelCapability::Thinking,
            ModelCapability::AlwaysThinking,
        ],
{
    vec![
        ModelCapability::ImageIn,
        ModelCapability::VideoIn,
        ModelCapability::Thinking,
        ModelCapability::AlwaysThinking,
    ]
}

/// The display name of a model: the two coding models say which model
/// powers them; any other name shows as it is; no name shows as empty.
pub open spec fn model_display_name_spec(model_name: Option<Seq<char>>) -> Seq<char> {
    match model_name {
        Some(n) => if n == "kimi-for-coding"@ || n == "kimi-code"@ {
            n + " (powered by kimi-k2.5)"@
        } else {
            n
        },
        None => Seq::empty(),
    }
}

/// Returns a display-friendly model name.
pub fn model_display_name(model_name: Option<&str>) -> (r: String)
    ensures
        r@ == model_display_name_spec(match model_name {
            Some(n) => Some(n@),
            None => None,
        }),
{
    match model_name {
        Some(n) => {
            let v = chars_of(n);
            if eq_vec(&v, &chars_of("kimi-for-coding")) || eq_vec(&v, &chars_of("kimi-code")) {
                let mut out = v;
                append_vec(&mut out, &chars_of(" (powered by kimi-k2.5)"));
                string_of(&out)
            } else {
                n.to_string()
            }
        },
        None => String::new(),
    }
}

/// `needle` occurs in `s`.
pub open spec fn contains_sub(s: Seq<char>, needle: Seq<char>) -> bool {
    find_sub_from(s, needle, 0) is Some
}

/// The capabilities a model's name adds: names mentioning thinking or
/// reasoning always think; the coding models think and read images and video.
pub open spec fn name_capabilities(model: Seq<char>) -> Set<ModelCapability> {
    let lower = to_lowercase_result(model);
    if contains_sub(lower, "thinking"@) || contains_sub(lower, "reason"@) {
        set![ModelCapability::Thinking, ModelCapability::AlwaysThinking]
    } else if model == "kimi-for-coding"@ || model == "kimi-code"@ {
        set![ModelCapability::Thinking, ModelCapability::ImageIn, ModelCapability::VideoIn]
    } else {
        Set::empty()
    }
}

/// The configured capabilities of a model, as a set.
pub open spec fn configured_capabilities(model: LlmModel) -> Set<ModelCapability> {
    match model.capabilities {
        Some(v) => v@.to_set(),
        None => Set::empty(),
    }
}

fn insert_cap(caps: &mut Vec<ModelCapability>, c: ModelCapability)
    requires
        old(caps)@.no_duplicates(),
    ensures
        final(caps)@.no_duplicates(),
        final(caps)@.to_set() == old(caps)@.to_set().insert(c),
{
    let mut i: usize = 0;
    while i < caps.len()
        invariant
            i <= caps.len(),
            caps@ == old(caps)@,
            caps@.no_duplicates(),
            forall|j: int| 0 <= j < i ==> caps@[j] != c,
        decreases caps.len() - i,
    {
        if caps[i] == c {
            assert(caps@.to_set().insert(c) =~= caps@.to_set());
            return;
        }
        i += 1;
    }
    let ghost before = caps@;
    caps.push(c);
    assert(caps@.to_set() =~= before.to_set().insert(c)) by {
        assert forall|x: ModelCapability| caps@.to_set().contains(x) <==> before.to_set().insert(c).contains(x) by {
            if caps@.contains(x) && x != c {
                let k = choose|k: int| 0 <= k < caps@.len() && caps@[k] == x;
                assert(before[k] == x);
            }
            if before.contains(x) {
                let k = choose|k: int| 0 <= k < before.len() && before[k] == x;
                assert(caps@[k] == x);
            }
            if x == c {
                assert(caps@[before.len() as int] == c);
            }
        }
    }
}

fn contains_text(s: &Vec<char>, needle: &str) -> (r: bool)
    ensures
        r == contains_sub(s@, needle@),
{
    find_sub_exec(s, &chars_of(needle)).is_some()
}

/// The capabilities of a model: those configured, plus those its name adds
/// (see `name_capabilities`); each at most once.
pub fn derive_model_capabilities(model: &LlmModel) -> (r: Vec<ModelCapability>)
    ensures
        r@.no_duplicates(),
        r@.to_set() == configured_capabilities(*model).union(name_capabilities(model.model@)),
{
    let mut caps: Vec<ModelCapability> = Vec::new();
    match &model.capabilities {
        Some(v) => {
            let mut i: usize = 0;
            while i < v.len()
                invariant
                    i <= v.len(),
                    caps@.no_duplicates(),
                    caps@.to_set() == v@.subrange(0, i as int).to_set(),
                decreases v.len() - i,
            {
                insert_cap(&mut caps, v[i]);
                assert(v@.subrange(0, i + 1) =~= v@.subrange(0, i as int).push(v@[i as int]));
                proof {
                    v@.subrange(0, i as int).lemma_push_to_set_commute(v@[i as int]);
                }
                i += 1;
            }
            assert(v@.subrange(0, v.len() as int) =~= v@);
        },
        None => {
            assert(caps@.to_set() =~= Set::<ModelCapability>::empty());
        },
    }
    let ghost base = caps@.to_set();
    assert(base == configured_capabilities(*model));
    let lower = chars_of(to_lowercase(model.model.as_str()).as_str());
    let name = chars_of(model.model.as_str());
    if contains_text(&lower, "thinking") || contains_text(&lower, "reason") {
        insert_cap(&mut caps, ModelCapability::Thinking);
        insert_cap(&mut caps, ModelCapability::AlwaysThinking);
        assert(caps@.to_set() =~= base.union(name_capabilities(model.model@)));
    } else if eq_vec(&name, &chars_of("kimi-for-coding")) || eq_vec(&name, &chars_of("kimi-code")) {
        insert_cap(&mut caps, ModelCapability::Thinking);
        insert_cap(&mut caps, ModelCapability::ImageIn);
        insert_cap(&mut caps, ModelCapability::VideoIn);
        assert(caps@.to_set() =~= base.union(name_capabilities(model.model@)));
    } else {
        assert(caps@.to_set() =~= base.union(name_capabilities(model.model@)));
    }
    caps
}

/// A base URL as requests are built from it: trimmed, without trailing `/`,
/// and without a trailing `/v1` (and the `/` before it).
pub open spec fn normalize_base_url_spec(base: Seq<char>) -> Seq<char> {
    let s = trim_end_char(trim(base), '/');
    if s.len() >= 3 && s.subrange(s.len() - 3, s.len() as int) == "/v1"@ {
        trim_end_char(s.subrange(0, s.len() - 3), '/')
    } else {
        s
    }
}

proof fn lemma_trim_end_char_last(s: Seq<char>, c: char)
    ensures
        trim_end_char(s, c).len() == 0 || trim_end_char(s, c).last() != c,
    decreases s.len(),
{
    if s.len() > 0 && s.last() == c {
        lemma_trim_end_char_last(s.drop_last(), c);
    }
}

fn trim_end_slashes(v: &Vec<char>) -> (r: Vec<char>)
    ensures
        r@ == trim_end_char(v@, '/'),
{
    let mut b: usize = v.len();
    assert(v@.subrange(0, b as int) =~= v@);
    while b > 0 && v[b - 1] == '/'
        invariant
            b <= v.len(),
            trim_end_char(v@, '/') == trim_end_char(v@.subrange(0, b as int), '/'),
        decreases b,
    {
        assert(v@.subrange(0, b as int).drop_last() =~= v@.subrange(0, b - 1));
        b -= 1;
    }
    crate::text::sub_vec(v, 0, b)
}

/// Strips surrounding whitespace, trailing `/` and a trailing `/v1`, so that
/// request paths are not built as `.../v1/v1/...`. The result never ends
/// with `/`.
pub fn normalize_llm_base_url(base: &str) -> (r: String)
    ensures
        r@ == normalize_base_url_spec(base@),
        r@.len() == 0 || r@.last() != '/',
{
    let s = trim_end_slashes(&trim_vec(&chars_of(base)));
    proof {
        reveal_strlit("/v1");
        lemma_trim_end_char_last(trim(base@), '/');
    }
    let n = s.len();
    if n >= 3 && s[n - 3] == '/' && s[n - 2] == 'v' && s[n - 1] == '1' {
        assert(s@.subrange(n - 3, n as int) =~= "/v1"@);
        let cut = crate::text::sub_vec(&s, 0, n - 3);
        proof {
            lemma_trim_end_char_last(cut@, '/');
        }
        string_of(&trim_end_slashes(&cut))
    } else {
        assert(!(n >= 3 && s@.subrange(n - 3, n as int) == "/v1"@)) by {
            if n >= 3 && s@.subrange(n - 3, n as int) == "/v1"@ {
                assert(s@[n - 3] == s@.subrange(n - 3, n as int)[0]);
                assert(s@[n - 2] == s@.subrange(n - 3, n as int)[1]);
                assert(s@[n - 1] == s@.subrange(n - 3, n as int)[2]);
            }
        }
        string_of(&s)
    }
}

/// The environment variable that overrides a provider's base URL.
pub open spec fn base_url_env_var_spec(p: ProviderType) -> Option<Seq<char>> {
    match p {
        ProviderType::Kimi => Some("KIMI_BASE_URL"@),
        ProviderType::Anthropic => Some("ANTHROPIC_BASE_URL"@),
        ProviderType::OpenAiLegacy | ProviderType::OpenAiResponses => Some("OPENAI_BASE_URL"@),
        ProviderType::GoogleGenAi | ProviderType::Gemini | ProviderType::VertexAi => Some(
            "GOOGLE_GENAI_BASE_URL"@,
        ),
        _ => None,
    }
}

/// The environment variable that overrides a provider's API key.
pub open spec fn api_key_env_var_spec(p: ProviderType) -> Option<Seq<char>> {
    match p {
        ProviderType::Kimi => Some("KIMI_API_KEY"@),
        ProviderType::Anthropic => Some("ANTHROPIC_API_KEY"@),
        ProviderType::OpenAiLegacy | ProviderType::OpenAiResponses => Some("OPENAI_API_KEY"@),
        ProviderType::GoogleGenAi | ProviderType::Gemini | ProviderType::VertexAi => Some(
            "GOOGLE_GENAI_API_KEY"@,
        ),
        _ => None,
    }
}

/// Name of the environment variable overriding the base URL, if any.
pub fn base_url_env_var(p: ProviderType) -> (r: Option<&'static str>)
    ensures
        match r {
            Some(s) => base_url_env_var_spec(p) == Some(s@),
            None => base_url_env_var_spec(p) is None,
        },
{
    match p {
        ProviderType::Kimi => Some("KIMI_BASE_URL"),
        ProviderType::Anthropic => Some("ANTHROPIC_BASE_URL"),
        ProviderType::OpenAiLegacy | ProviderType::OpenAiResponses => Some("OPENAI_BASE_URL"),
        ProviderType::GoogleGenAi | ProviderType::Gemini | ProviderType::VertexAi => Some(
            "GOOGLE_GENAI_BASE_URL",
        ),
        _ => None,
    }
}

/// Name of the environment variable overriding the API key, if any.
pub fn api_key_env_var(p: ProviderType) -> (r: Option<&'static str>)
    ensures
        match r {
            Some(s) => api_key_env_var_spec(p) == Some(s@),
            None => api_key_env_var_spec(p) is None,
        },
{
    match p {
        ProviderType::Kimi => Some("KIMI_API_KEY"),
        ProviderType::Anthropic => Some("ANTHROPIC_API_KEY"),
        ProviderType::OpenAiLegacy | ProviderType::OpenAiResponses => Some("OPENAI_API_KEY"),
        ProviderType::GoogleGenAi | ProviderType::Gemini | ProviderType::VertexAi => Some(
            "GOOGLE_GENAI_API_KEY",
        ),
        _ => None,
    }
}

/// LLM client settings.
#[derive(Debug, Clone)]
pub struct Llm {
    pub model_name: String,
    pub max_context_size: usize,
    pub capabilities: Vec<ModelCapability>,
    pub thinking: Option<bool>,
    pub provider_type: ProviderType,
    pub base_url: String,
    pub api_key: String,
    /// Script lines for the scripted echo provider.
    pub scripted_echo_lines: Vec<String>,
}

impl Default for Llm {
    fn default() -> (r: Self)
        ensures
            r.model_name@ == Seq::<char>::empty(),
            r.max_context_size == 128_000,
            r.capabilities@.len() == 0,
            r.thinking is None,
            r.provider_type == ProviderType::Kimi,
            r.base_url@ == Seq::<char>::empty(),
            r.api_key@ == Seq::<char>::empty(),
            r.scripted_echo_lines@.len() == 0,
    {
        Llm {
            model_name: String::new(),
            max_context_size: 128_000,
            capabilities: Vec::new(),
            thinking: None,
            provider_type: ProviderType::Kimi,
            base_url: String::new(),
            api_key: String::new(),
            scripted_echo_lines: Vec::new(),
        }
    }
}

/// The provider type named in a provider configuration (Kimi when unknown).
pub open spec fn provider_type_of(name: Seq<char>) -> ProviderType {
    match provider_from_name_spec(name) {
        Some(p) => p,
        None => ProviderType::Kimi,
    }
}

/// What building LLM settings from a provider and a model gives, with
/// `base_url_env` and `api_key_env` the values of the provider's override
/// variables when set: local providers keep their base URL as given, others
/// have it normalized, and thinking adds the thinking capability.
#[verifier::opaque]
pub open spec fn llm_built(
    r: Llm,
    provider: LlmProvider,
    model: LlmModel,
    thinking: Option<bool>,
    base_url_env: Option<Seq<char>>,
    api_key_env: Option<Seq<char>>,
) -> bool {
    &&& r.provider_type == provider_type_of(provider.provider_type@)
    &&& r.model_name@ == model.model@
    &&& r.max_context_size == model.max_context_size
    &&& r.thinking == thinking
    &&& r.capabilities@.no_duplicates()
    &&& r.capabilities@.to_set() == configured_capabilities(model).union(
        name_capabilities(model.model@),
    ).union(if thinking == Some(true) {
        set![ModelCapability::Thinking]
    } else {
        Set::empty()
    })
    &&& ({
        let raw = match base_url_env {
            Some(v) => v,
            None => provider.base_url@,
        };
        r.base_url@ == (if is_local_spec(r.provider_type) {
            raw
        } else {
            normalize_base_url_spec(raw)
        })
    })
    &&& r.api_key@ == (match api_key_env {
        Some(v) => v,
        None => provider.api_key@,
    })
}

/// Builds LLM settings from a provider and model configuration. `base_url_env`
/// and `api_key_env` are the values of the provider's override variables,
/// when set.
pub fn create_llm(
    provider: &LlmProvider,
    model: &LlmModel,
    thinking: Option<bool>,
    base_url_env: Option<String>,
    api_key_env: Option<String>,
) -> (r: Llm)
    ensures
        llm_built(
            r,
            *provider,
            *model,
            thinking,
            match base_url_env {
                Some(v) => Some(v@),
                None => None,
            },
            match api_key_env {
                Some(v) => Some(v@),
                None => None,
            },
        ),
        r.scripted_echo_lines@.len() == 0,
{
    proof {
        reveal(llm_built);
    }
    let pt = match ProviderType::from_name(provider.provider_type.as_str()) {
        Some(p) => p,
        None => ProviderType::Kimi,
    };
    let mut caps = derive_model_capabilities(model);
    let ghost c0 = caps@.to_set();
    if thinking == Some(true) {
        insert_cap(&mut caps, ModelCapability::Thinking);
        assert(caps@.to_set() =~= c0.union(set![ModelCapability::Thinking]));
    } else {
        assert(caps@.to_set() =~= c0.union(Set::<ModelCapability>::empty()));
    }
    let raw = match base_url_env {
        Some(v) => v,
        None => provider.base_url.clone(),
    };
    let base_url = if pt.is_local() {
        raw
    } else {
        normalize_llm_base_url(raw.as_str())
    };
    let api_key = match api_key_env {
        Some(v) => v,
        None => provider.api_key.clone(),
    };
    Llm {
        model_name: model.model.clone(),
        max_context_size: model.max_context_size,
        capabilities: caps,
        thinking,
        provider_type: pt,
        base_url,
        api_key,
        scripted_echo_lines: Vec::new(),
    }
}


/// LLM settings as a value.
pub open spec fn llm_view(l: Llm) -> (
    Seq<char>,
    usize,
    Seq<ModelCapability>,
    Option<bool>,
    ProviderType,
    Seq<char>,
    Seq<char>,
    Seq<Seq<char>>,
) {
    (
        l.model_name@,
        l.max_context_size,
        l.capabilities@,
        l.thinking,
        l.provider_type,
        l.base_url@,
        l.api_key@,
        strings_view(l.scripted_echo_lines@),
    )
}

/// A copy of LLM settings.
pub fn copy_llm(l: &Llm) -> (r: Llm)
    ensures
        llm_view(r) == llm_view(*l),
{
    Llm {
        model_name: l.model_name.clone(),
        max_context_size: l.max_context_size,
        capabilities: copy_caps(&l.capabilities),
        thinking: l.thinking,
        provider_type: l.provider_type,
        base_url: l.base_url.clone(),
        api_key: l.api_key.clone(),
        scripted_echo_lines: copy_strings(&l.scripted_echo_lines),
    }
}

/// The value of an environment variable in a snapshot of the environment as
/// (name, value) pairs: that of the first entry with the name.
pub open spec fn env_value(env: Seq<(String, String)>, var: Option<Seq<char>>) -> Option<Seq<char>> {
    match var {
        Some(name) => match key_pos(env, name) {
            Some(i) => Some(env[i].1@),
            None => None,
        },
        None => None,
    }
}

fn env_lookup(env: &Vec<(String, String)>, var: Option<&str>) -> (r: Option<String>)
    ensures
        match r {
            Some(v) => env_value(env@, match var {
                Some(n) => Some(n@),
                None => None,
            }) == Some(v@),
            None => env_value(env@, match var {
                Some(n) => Some(n@),
                None => None,
            }) is None,
        },
{
    match var {
        Some(name) => match key_index(env, name) {
            Some(i) => Some(env[i].1.clone()),
            None => None,
        },
        None => None,
    }
}

/// What switching LLM settings to a model alias gives: with no alias, the
/// settings as they are; else the alias's model and its provider, built as
/// `create_llm` builds them with the current thinking setting and the
/// environment's overrides, keeping the script lines of the current
/// settings. An unknown alias, or a model whose provider is missing, is a
/// configuration error.
#[verifier::opaque]
pub open spec fn alias_outcome(
    r: Result<Option<Llm>, KimiCliError>,
    llm: Option<Llm>,
    models: Seq<(String, LlmModel)>,
    providers: Seq<(String, LlmProvider)>,
    alias: Option<Seq<char>>,
    env: Seq<(String, String)>,
) -> bool {
    match alias {
        None => match llm {
            Some(l) => r matches Ok(Some(n)) && llm_view(n) == llm_view(l),
            None => r matches Ok(None),
        },
        Some(a) => match key_pos(models, a) {
            None => r matches Err(KimiCliError::Config(m)) && m@ == "Unknown model alias: "@ + a,
            Some(i) => {
                let model = models[i].1;
                match key_pos(providers, model.provider@) {
                    None => r matches Err(KimiCliError::Config(m)) && m@ == "Provider not found for model: "@ + a,
                    Some(j) => {
                        let provider = providers[j].1;
                        let pt = provider_type_of(provider.provider_type@);
                        r matches Ok(Some(n)) && llm_built(
                            n,
                            provider,
                            model,
                            match llm {
                                Some(l) => l.thinking,
                                None => None,
                            },
                            env_value(env, base_url_env_var_spec(pt)),
                            env_value(env, api_key_env_var_spec(pt)),
                        ) && strings_view(n.scripted_echo_lines@) == (match llm {
                            Some(l) => strings_view(l.scripted_echo_lines@),
                            None => Seq::empty(),
                        })
                    },
                }
            },
        },
    }
}

/// Switches LLM settings to another model alias of the configuration.
/// `env` is a snapshot of the environment, read for the provider's override
/// variables.
pub fn clone_llm_with_model_alias(
    llm: Option<&Llm>,
    config: &Config,
    model_alias: Option<&str>,
    env: &Vec<(String, String)>,
) -> (r: Result<Option<Llm>, KimiCliError>)
    ensures
        alias_outcome(
            r,
            match llm {
                Some(l) => Some(*l),
                None => None,
            },
            config.models@,
            config.providers@,
            match model_alias {
                Some(a) => Some(a@),
                None => None,
            },
            env@,
        ),
{
    match model_alias {
        None => {
            let r = keep_llm(llm);
            proof {
                reveal(alias_outcome);
            }
            r
        },
        Some(alias) => llm_for_alias_name(llm, config, alias, env),
    }
}

fn llm_for_alias_name(llm: Option<&Llm>, config: &Config, alias: &str, env: &Vec<(String, String)>) -> (r: Result<Option<Llm>, KimiCliError>)
    ensures
        alias_outcome(
            r,
            match llm {
                Some(l) => Some(*l),
                None => None,
            },
            config.models@,
            config.providers@,
            Some(alias@),
            env@,
        ),
{
    proof {
        reveal(alias_outcome);
    }
    let mi = match key_index(&config.models, alias) {
        Some(i) => i,
        None => {
            let mut m = chars_of("Unknown model alias: ");
            append_vec(&mut m, &chars_of(alias));
            return Err(KimiCliError::Config(string_of(&m)));
        },
    };
    let model = &config.models[mi].1;
    let pi = match key_index(&config.providers, model.provider.as_str()) {
        Some(i) => i,
        None => {
            let mut m = chars_of("Provider not found for model: ");
            append_vec(&mut m, &chars_of(alias));
            return Err(KimiCliError::Config(string_of(&m)));
        },
    };
    let provider = &config.providers[pi].1;
    Ok(Some(llm_for_alias(llm, provider, model, env)))
}

fn keep_llm(llm: Option<&Llm>) -> (r: Result<Option<Llm>, KimiCliError>)
    ensures
        match llm {
            Some(l) => r matches Ok(Some(n)) && llm_view(n) == llm_view(*l),
            None => r matches Ok(None),
        },
{
    match llm {
        Some(l) => Ok(Some(copy_llm(l))),
        None => Ok(None),
    }
}

fn llm_for_alias(llm: Option<&Llm>, provider: &LlmProvider, model: &LlmModel, env: &Vec<(String, String)>) -> (r: Llm)
    ensures
        ({
            let pt = provider_type_of(provider.provider_type@);
            llm_built(
                r,
                *provider,
                *model,
                match llm {
                    Some(l) => l.thinking,
                    None => None,
                },
                env_value(env@, base_url_env_var_spec(pt)),
                env_value(env@, api_key_env_var_spec(pt)),
            )
        }),
        strings_view(r.scripted_echo_lines@) == (match llm {
            Some(l) => strings_view(l.scripted_echo_lines@),
            None => Seq::empty(),
        }),
{
    let thinking = match llm {
        Some(l) => l.thinking,
        None => None,
    };
    let pt = match ProviderType::from_name(provider.provider_type.as_str()) {
        Some(p) => p,
        None => ProviderType::Kimi,
    };
    let base_url_env = env_lookup(env, base_url_env_var(pt));
    let api_key_env = env_lookup(env, api_key_env_var(pt));
    let new_llm = create_llm(provider, model, thinking, base_url_env, api_key_env);
    proof {
        reveal(llm_built);
    }
    let scripted_echo_lines = match llm {
        Some(original) => copy_strings(&original.scripted_echo_lines),
        None => Vec::new(),
    };
    Llm { scripted_echo_lines, ..new_llm }
}

} // verus!
