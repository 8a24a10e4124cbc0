//! First-run setup and backend selection: model catalogues, the agent
//! session a save request selects, and the credential-source labels.
use vstd::prelude::*;

use crate::config::{
    AgentKind, AgentSession, ClaudeBackend, CodexBackend, CodexConfig,
    LightarchitectsNativeConfig, MistralVibeConfig, OllamaLaunchConfig,
};
use crate::text::{
    after_char, chars_of, has_prefix, lines_of, opt_chars, split_at_char, split_lines, starts_with, str_eq,
    string_of, trim, trim_char, trim_matches, trim_start, trimmed, trimmed_start,
};

verus! {

/// A single model option.
#[derive(Debug, Clone)]
pub struct ModelOption {
    pub id: String,
    pub label: String,
    /// `flagship`, `balanced`, `capable` or `fast`.
    pub tier: String,
    pub family: Option<String>,
    pub tool_use: Option<bool>,
    pub vision: Option<bool>,
    pub context_k: Option<u32>,
}

/// Response of the models route.
#[derive(Debug)]
pub struct ModelsResponse {
    pub models: Vec<ModelOption>,
}

/// An option as (id, label, tier), with no family, tool use, vision or context.
pub open spec fn plain_option(m: ModelOption) -> Option<(Seq<char>, Seq<char>, Seq<char>)> {
    if m.family is None && m.tool_use is None && m.vision is None && m.context_k is None {
        Some((m.id@, m.label@, m.tier@))
    } else {
        None
    }
}

pub open spec fn plain_options(ms: Seq<ModelOption>) -> Seq<Option<(Seq<char>, Seq<char>, Seq<char>)>> {
    ms.map_values(|m: ModelOption| plain_option(m))
}

fn option(id: &str, label: &str, tier: &str) -> (m: ModelOption)
    ensures
        plain_option(m) == Some((id@, label@, tier@)),
{
    ModelOption {
        id: String::from_str(id),
        label: String::from_str(label),
        tier: String::from_str(tier),
        family: None,
        tool_use: None,
        vision: None,
        context_k: None,
    }
}

pub open spec fn entry(id: Seq<char>, label: Seq<char>, tier: Seq<char>) -> Option<
    (Seq<char>, Seq<char>, Seq<char>),
> {
    Some((id, label, tier))
}

/// The cloud models that the native CLI agent offers before the Anthropic family.
pub open spec fn native_cloud_catalogue() -> Seq<Option<(Seq<char>, Seq<char>, Seq<char>)>> {
    seq![
        entry("nemotron-3-super:120b-cloud"@, "Nemotron 3 Super 120B"@, "capable"@),
        entry("nemotron-3-super:cloud"@, "Nemotron 3 Super Cloud"@, "capable"@),
        entry("qwen3-coder:480b-cloud"@, "Qwen3 Coder 480B Cloud"@, "balanced"@),
    ]
}

/// Models available to the native CLI agent: its cloud models, then the
/// Anthropic family as the caller lists it.
pub fn lightarchitects_models(anthropic_family: Vec<ModelOption>) -> (r: Vec<ModelOption>)
    ensures
        plain_options(r@) == native_cloud_catalogue() + plain_options(anthropic_family@),
{
    let mut r = vec![
        option("nemotron-3-super:120b-cloud", "Nemotron 3 Super 120B", "capable"),
        option("nemotron-3-super:cloud", "Nemotron 3 Super Cloud", "capable"),
        option("qwen3-coder:480b-cloud", "Qwen3 Coder 480B Cloud", "balanced"),
    ];
    assert(plain_options(r@) =~= native_cloud_catalogue());
    let ghost head = r@;
    let mut fam = anthropic_family;
    r.append(&mut fam);
    assert(plain_options(r@) =~= native_cloud_catalogue() + plain_options(anthropic_family@));
    r
}

/// The OpenRouter models other than the Anthropic one, in their order.
pub open spec fn openrouter_others() -> Seq<Option<(Seq<char>, Seq<char>, Seq<char>)>> {
    seq![
        entry("meta-llama/llama-3.3-70b-instruct"@, "Llama 3.3 70B (via OpenRouter)"@, "fast"@),
        entry("google/gemini-2.0-flash-001"@, "Gemini 2.0 Flash (via OpenRouter)"@, "fast"@),
        entry("deepseek/deepseek-r1"@, "DeepSeek R1 (via OpenRouter)"@, "capable"@),
    ]
}

/// A curated set of popular OpenRouter models: GPT-4o, the Anthropic model
/// that the caller names, then Llama, Gemini and DeepSeek.
pub fn openrouter_models(anthropic_model: ModelOption) -> (r: Vec<ModelOption>)
    ensures
        plain_options(r@) == seq![
            entry("openai/gpt-4o"@, "GPT-4o (OpenAI via OpenRouter)"@, "balanced"@),
            plain_option(anthropic_model),
        ] + openrouter_others(),
{
    let ghost a = plain_option(anthropic_model);
    let r = vec![
        option("openai/gpt-4o", "GPT-4o (OpenAI via OpenRouter)", "balanced"),
        anthropic_model,
        option("meta-llama/llama-3.3-70b-instruct", "Llama 3.3 70B (via OpenRouter)", "fast"),
        option("google/gemini-2.0-flash-001", "Gemini 2.0 Flash (via OpenRouter)", "fast"),
        option("deepseek/deepseek-r1", "DeepSeek R1 (via OpenRouter)", "capable"),
    ];
    assert(plain_options(r@) =~= seq![
        entry("openai/gpt-4o"@, "GPT-4o (OpenAI via OpenRouter)"@, "balanced"@),
        a,
    ] + openrouter_others());
    r
}

/// A plain model option with no family, capabilities or context.
pub fn model_option(id: &str, label: &str, tier: &str) -> (m: ModelOption)
    ensures
        plain_option(m) == Some((id@, label@, tier@)),
{
    option(id, label, tier)
}

// ── Codex ────────────────────────────────────────────────────────────────────

/// Index of the first line whose text (leading whitespace aside) starts with
/// `model` (the number of lines when none does).
pub open spec fn first_model_line(lines: Seq<Seq<char>>) -> int
    decreases lines.len(),
{
    if lines.len() == 0 {
        0
    } else if has_prefix(trim_start(lines[0]), "model"@) {
        0
    } else {
        1 + first_model_line(lines.drop_first())
    }
}

/// The model that a Codex `config.toml` names: on the first line that starts
/// with `model`, the text after its first `=`, trimmed of whitespace and of
/// surrounding double quotes.  None when no line starts so, or that line has
/// no `=`.
pub open spec fn codex_model_of(content: Seq<char>) -> Option<Seq<char>> {
    let ls = lines_of(content);
    let k = first_model_line(ls);
    if 0 <= k < ls.len() {
        match after_char(ls[k], '=') {
            Some(v) => Some(trim_char(trim(v), '"')),
            None => None,
        }
    } else {
        None
    }
}

proof fn lemma_first_model_line(ls: Seq<Seq<char>>, k: int)
    requires
        0 <= k <= ls.len(),
        forall|j: int| 0 <= j < k ==> !has_prefix(trim_start(#[trigger] ls[j]), "model"@),
        k < ls.len() ==> has_prefix(trim_start(ls[k]), "model"@),
    ensures
        first_model_line(ls) == k,
    decreases ls.len(),
{
    if ls.len() > 0 && k > 0 {
        assert forall|j: int| 0 <= j < k - 1 implies !has_prefix(
            trim_start(#[trigger] ls.drop_first()[j]),
            "model"@,
        ) by {
            assert(ls.drop_first()[j] == ls[j + 1]);
        }
        lemma_first_model_line(ls.drop_first(), k - 1);
    }
}

/// Read the model named in a Codex `config.toml`.
pub fn codex_model_from_config(content: &str) -> (r: Option<String>)
    ensures
        match r {
            Some(m) => codex_model_of(content@) == Some(m@),
            None => codex_model_of(content@) is None,
        },
{
    let text = chars_of(content);
    let lines = split_lines(&text);
    let ghost ls = lines_of(content@);
    let mut k: usize = 0;
    while k < lines.len()
        invariant
            k <= lines.len() == ls.len(),
            ls == lines_of(content@),
            forall|j: int| 0 <= j < lines.len() ==> #[trigger] lines[j]@ == ls[j],
            forall|j: int| 0 <= j < k ==> !has_prefix(trim_start(#[trigger] ls[j]), "model"@),
        decreases lines.len() - k,
    {
        if starts_with(&trimmed_start(&lines[k]), "model") {
            proof {
                lemma_first_model_line(ls, k as int);
            }
            let (_, value) = split_at_char(&lines[k], '=');
            assert(first_model_line(ls) == k);
            assert(lines[k as int]@ == ls[k as int]);
            return match value {
                Some(v) => Some(string_of(&trim_matches(&trimmed(&v), '"'))),
                None => None,
            };
        }
        k += 1;
    }
    proof {
        lemma_first_model_line(ls, k as int);
    }
    None
}

/// The Codex model list: the configured model, or an empty id when none is
/// configured; the label says where the model comes from.
pub fn codex_models(model: Option<String>) -> (r: Vec<ModelOption>)
    ensures
        plain_options(r@) == match model {
            Some(m) => seq![entry(m@, m@ + " (from ~/.codex/config.toml)"@, "balanced"@)],
            None => seq![entry(Seq::empty(), "(from ~/.codex/config.toml)"@, "balanced"@)],
        },
{
    let o = match model {
        Some(m) => {
            let label = m.clone().concat(" (from ~/.codex/config.toml)");
            assert(label@ == m@ + " (from ~/.codex/config.toml)"@);
            ModelOption {
                id: m,
                label,
                tier: String::from_str("balanced"),
                family: None,
                tool_use: None,
                vision: None,
                context_k: None,
            }
        },
        None => {
            proof {
                reveal_strlit("");
                assert(""@ =~= Seq::<char>::empty());
            }
            option("", "(from ~/.codex/config.toml)", "balanced")
        },
    };
    let ghost ov = plain_option(o);
    let r = vec![o];
    assert(r@[0] == o);
    assert(plain_options(r@) =~= seq![ov]);
    assert(ov == match model {
        Some(m) => entry(m@, m@ + " (from ~/.codex/config.toml)"@, "balanced"@),
        None => entry(Seq::empty(), "(from ~/.codex/config.toml)"@, "balanced"@),
    });
    r
}

// ── Ollama ───────────────────────────────────────────────────────────────────

/// The models an Ollama endpoint lists, each as its own id and label.
pub fn ollama_models(names: Vec<String>) -> (r: Vec<ModelOption>)
    ensures
        r.len() == names.len(),
        forall|i: int|
            0 <= i < r.len() ==> plain_option(#[trigger] r@[i]) == entry(
                names@[i]@,
                names@[i]@,
                "balanced"@,
            ),
{
    let ghost input = names@;
    let mut names = names;
    let mut r: Vec<ModelOption> = Vec::new();
    while names.len() > 0
        invariant
            r.len() + names.len() == input.len(),
            names@ == input.skip(r.len() as int),
            forall|i: int|
                0 <= i < r.len() ==> plain_option(#[trigger] r@[i]) == entry(
                    input[i]@,
                    input[i]@,
                    "balanced"@,
                ),
        decreases names.len(),
    {
        let n = names.remove(0);
        let label = n.clone();
        r.push(
            ModelOption {
                id: n,
                label,
                tier: String::from_str("balanced"),
                family: None,
                tool_use: None,
                vision: None,
                context_k: None,
            },
        );
        assert(names@ =~= input.skip(r.len() as int));
    }
    r
}

/// Cost tier of a cloud model.
#[derive(Debug, Clone, Copy, PartialEq, Eq, Structural)]
pub enum CostTier {
    Low,
    Medium,
    High,
    Premium,
}

/// An entry of the cloud model registry.
#[derive(Debug, Clone)]
pub struct CloudModel {
    pub slug: String,
    pub display_name: String,
    pub provider_org: String,
    pub family: String,
    pub cost_tier: CostTier,
    pub tool_use: bool,
    pub vision: bool,
    pub context_length: u32,
}

/// The tier label of a cost tier.
pub open spec fn tier_of(t: CostTier) -> Seq<char> {
    match t {
        CostTier::Low => "fast"@,
        CostTier::Medium => "balanced"@,
        CostTier::High => "capable"@,
        CostTier::Premium => "flagship"@,
    }
}

/// The option of a cloud model: its slug, `<name> — <org>`, the tier of its
/// cost, its family and capabilities, and its context in thousands of tokens.
pub fn cloud_model_option(m: &CloudModel) -> (o: ModelOption)
    ensures
        o.id@ == m.slug@,
        o.label@ == m.display_name@ + " — "@ + m.provider_org@,
        o.tier@ == tier_of(m.cost_tier),
        o.family matches Some(f) && f@ == m.family@,
        o.tool_use == Some(m.tool_use),
        o.vision == Some(m.vision),
        o.context_k == Some((m.context_length / 1000) as u32),
{
    let tier = match m.cost_tier {
        CostTier::Low => String::from_str("fast"),
        CostTier::Medium => String::from_str("balanced"),
        CostTier::High => String::from_str("capable"),
        CostTier::Premium => String::from_str("flagship"),
    };
    ModelOption {
        id: m.slug.clone(),
        label: m.display_name.clone().concat(" — ").concat(m.provider_org.as_str()),
        tier,
        family: Some(m.family.clone()),
        tool_use: Some(m.tool_use),
        vision: Some(m.vision),
        context_k: Some(m.context_length / 1000),
    }
}

// ── Backend routing ──────────────────────────────────────────────────────────

/// Where the models of a backend come from.
#[derive(Debug, Clone, PartialEq, Eq)]
pub enum ModelSource {
    Anthropic,
    Lightarchitects,
    /// Read from the Codex configuration file.
    Codex,
    /// Listed by the Ollama endpoint at this base URL.
    Ollama(String),
    OllamaCloud,
    OpenRouter,
    /// An unknown backend has no models.
    Unknown,
}

/// Query of the models route.
#[derive(Debug, Clone)]
pub struct ModelsQuery {
    pub backend: String,
    pub base_url: Option<String>,
}

/// The model source of a backend identifier; Ollama defaults to the local endpoint.
pub open spec fn source_of(backend: Seq<char>, base_url: Option<Seq<char>>) -> ModelSourceView {
    if backend == "anthropic"@ {
        ModelSourceView::Anthropic
    } else if backend == "lightarchitects"@ || backend == "lightarchitects_native"@ {
        ModelSourceView::Lightarchitects
    } else if backend == "openai"@ || backend == "codex"@ {
        ModelSourceView::Codex
    } else if backend == "ollama-launch"@ || backend == "ollama_launch"@ || backend == "ollama"@ {
        ModelSourceView::Ollama(
            match base_url {
                Some(u) => u,
                None => "http://localhost:11434"@,
            },
        )
    } else if backend == "ollama-cloud"@ {
        ModelSourceView::OllamaCloud
    } else if backend == "openrouter"@ {
        ModelSourceView::OpenRouter
    } else {
        ModelSourceView::Unknown
    }
}

pub enum ModelSourceView {
    Anthropic,
    Lightarchitects,
    Codex,
    Ollama(Seq<char>),
    OllamaCloud,
    OpenRouter,
    Unknown,
}

pub open spec fn source_view(s: ModelSource) -> ModelSourceView {
    match s {
        ModelSource::Anthropic => ModelSourceView::Anthropic,
        ModelSource::Lightarchitects => ModelSourceView::Lightarchitects,
        ModelSource::Codex => ModelSourceView::Codex,
        ModelSource::Ollama(u) => ModelSourceView::Ollama(u@),
        ModelSource::OllamaCloud => ModelSourceView::OllamaCloud,
        ModelSource::OpenRouter => ModelSourceView::OpenRouter,
        ModelSource::Unknown => ModelSourceView::Unknown,
    }
}

/// Route a models query to its source.
pub fn model_source(q: &ModelsQuery) -> (r: ModelSource)
    ensures
        source_view(r) == source_of(
            q.backend@,
            match q.base_url {
                Some(u) => Some(u@),
                None => None,
            },
        ),
{
    let b = q.backend.as_str();
    if str_eq(b, "anthropic") {
        ModelSource::Anthropic
    } else if str_eq(b, "lightarchitects") || str_eq(b, "lightarchitects_native") {
        ModelSource::Lightarchitects
    } else if str_eq(b, "openai") || str_eq(b, "codex") {
        ModelSource::Codex
    } else if str_eq(b, "ollama-launch") || str_eq(b, "ollama_launch") || str_eq(b, "ollama") {
        ModelSource::Ollama(
            match &q.base_url {
                Some(u) => u.clone(),
                None => String::from_str("http://localhost:11434"),
            },
        )
    } else if str_eq(b, "ollama-cloud") {
        ModelSource::OllamaCloud
    } else if str_eq(b, "openrouter") {
        ModelSource::OpenRouter
    } else {
        ModelSource::Unknown
    }
}


// ── Saving a backend choice ──────────────────────────────────────────────────

/// Request body of a setup save.
#[derive(Debug, Clone)]
pub struct SaveRequest {
    pub agent: AgentKind,
    /// `anthropic`, `ollama-launch`, `openai`, ...
    pub backend: String,
    pub model: Option<String>,
    pub ollama_base_url: Option<String>,
    /// Key to store in the keychain (never written to disk).
    pub api_key: Option<String>,
}

/// Response of a setup save.
#[derive(Debug, Clone, Copy)]
pub struct SaveResponse {
    pub ok: bool,
}

/// The persisted setup.
#[derive(Debug, Clone)]
pub struct SetupConfig {
    pub agent: AgentKind,
    pub backend: String,
    pub model: Option<String>,
    pub ollama_base_url: Option<String>,
    pub api_key_stored: bool,
}

pub open spec fn opt_view(o: Option<String>) -> Option<Seq<char>> {
    match o {
        Some(s) => Some(s@),
        None => None,
    }
}

/// An agent session as values.
pub enum SessionView {
    LightarchitectsAnthropic,
    LightarchitectsOllama { model: Seq<char>, base_url: Seq<char> },
    LightarchitectsOllamaHttp { model: Seq<char>, base_url: Seq<char>, auth_token: Seq<char> },
    CodexOpenAi { model: Seq<char> },
    CodexOllama { model: Seq<char>, ollama_model: Seq<char>, base_url: Seq<char> },
    Native { binary: Seq<char>, model: Option<Seq<char>> },
    MistralVibe { model: Option<Seq<char>> },
}

pub open spec fn session_view(s: AgentSession) -> SessionView {
    match s {
        AgentSession::Lightarchitects(ClaudeBackend::Anthropic) => SessionView::LightarchitectsAnthropic,
        AgentSession::Lightarchitects(ClaudeBackend::OllamaLaunch(c)) => SessionView::LightarchitectsOllama {
            model: c.model@,
            base_url: c.base_url@,
        },
        AgentSession::Lightarchitects(ClaudeBackend::Ollama(c)) => SessionView::LightarchitectsOllamaHttp {
            model: c.model@,
            base_url: c.base_url@,
            auth_token: c.auth_token@,
        },
        AgentSession::Codex(c) => match c.backend {
            CodexBackend::OpenAi => SessionView::CodexOpenAi { model: c.model@ },
            CodexBackend::OllamaLaunch(o) => SessionView::CodexOllama {
                model: c.model@,
                ollama_model: o.model@,
                base_url: o.base_url@,
            },
        },
        AgentSession::LightarchitectsNative(c) => SessionView::Native {
            binary: c.binary@,
            model: opt_view(c.model),
        },
        AgentSession::MistralVibe(c) => SessionView::MistralVibe { model: opt_view(c.model) },
    }
}

pub open spec fn or_default(o: Option<Seq<char>>, d: Seq<char>) -> Seq<char> {
    match o {
        Some(s) => s,
        None => d,
    }
}

pub open spec fn is_ollama_launch(b: Seq<char>) -> bool {
    b == "ollama-launch"@ || b == "ollama_launch"@
}

/// The agent session a save selects.  The Lightarchitects agent takes the
/// `anthropic` backend or an Ollama launch (model defaults to
/// `qwen3-coder:480b-cloud`, URL to the local endpoint); Codex takes `openai`
/// or an Ollama launch, and its own model defaults to `gpt-4o`; any other
/// backend selects nothing for those two.  The native agent runs
/// `lightarchitects-cli` with the given model; Mistral Vibe keeps the model as given.
pub open spec fn session_for(
    agent: AgentKind,
    backend: Seq<char>,
    model: Option<Seq<char>>,
    base_url: Option<Seq<char>>,
) -> Option<SessionView> {
    let launch_model = or_default(model, "qwen3-coder:480b-cloud"@);
    let launch_url = or_default(base_url, "http://localhost:11434"@);
    match agent {
        AgentKind::Lightarchitects => if backend == "anthropic"@ {
            Some(SessionView::LightarchitectsAnthropic)
        } else if is_ollama_launch(backend) {
            Some(SessionView::LightarchitectsOllama { model: launch_model, base_url: launch_url })
        } else {
            None
        },
        AgentKind::Codex => if backend == "openai"@ {
            Some(SessionView::CodexOpenAi { model: or_default(model, "gpt-4o"@) })
        } else if is_ollama_launch(backend) {
            Some(
                SessionView::CodexOllama {
                    model: or_default(model, "gpt-4o"@),
                    ollama_model: launch_model,
                    base_url: launch_url,
                },
            )
        } else {
            None
        },
        AgentKind::LightarchitectsNative => Some(
            SessionView::Native { binary: "lightarchitects-cli"@, model },
        ),
        AgentKind::MistralVibe => Some(SessionView::MistralVibe { model }),
    }
}

fn opt_clone(o: &Option<String>) -> (r: Option<String>)
    ensures
        opt_view(r) == opt_view(*o),
{
    match o {
        Some(s) => Some(s.clone()),
        None => None,
    }
}

fn or_default_string(o: &Option<String>, d: &str) -> (r: String)
    ensures
        r@ == or_default(opt_view(*o), d@),
{
    match o {
        Some(s) => s.clone(),
        None => String::from_str(d),
    }
}

/// Build the agent session that a save request selects.
pub fn agent_session_from_save(req: &SaveRequest) -> (r: Option<AgentSession>)
    ensures
        match r {
            Some(s) => session_for(req.agent, req.backend@, opt_view(req.model), opt_view(req.ollama_base_url))
                == Some(session_view(s)),
            None => session_for(req.agent, req.backend@, opt_view(req.model), opt_view(req.ollama_base_url)) is None,
        },
{
    let b = req.backend.as_str();
    match req.agent {
        AgentKind::Lightarchitects => {
            let backend = if str_eq(b, "anthropic") {
                ClaudeBackend::Anthropic
            } else if str_eq(b, "ollama-launch") || str_eq(b, "ollama_launch") {
                ClaudeBackend::OllamaLaunch(
                    OllamaLaunchConfig {
                        model: or_default_string(&req.model, "qwen3-coder:480b-cloud"),
                        base_url: or_default_string(&req.ollama_base_url, "http://localhost:11434"),
                    },
                )
            } else {
                return None;
            };
            Some(AgentSession::Lightarchitects(backend))
        },
        AgentKind::Codex => {
            let backend = if str_eq(b, "openai") {
                CodexBackend::OpenAi
            } else if str_eq(b, "ollama-launch") || str_eq(b, "ollama_launch") {
                CodexBackend::OllamaLaunch(
                    OllamaLaunchConfig {
                        model: or_default_string(&req.model, "qwen3-coder:480b-cloud"),
                        base_url: or_default_string(&req.ollama_base_url, "http://localhost:11434"),
                    },
                )
            } else {
                return None;
            };
            Some(
                AgentSession::Codex(
                    CodexConfig { model: or_default_string(&req.model, "gpt-4o"), backend },
                ),
            )
        },
        AgentKind::LightarchitectsNative => Some(
            AgentSession::LightarchitectsNative(
                LightarchitectsNativeConfig {
                    binary: String::from_str("lightarchitects-cli"),
                    model: opt_clone(&req.model),
                },
            ),
        ),
        AgentKind::MistralVibe => Some(
            AgentSession::MistralVibe(MistralVibeConfig { model: opt_clone(&req.model) }),
        ),
    }
}

/// Whether a key was given to store: present and not empty.
pub open spec fn key_given(k: Option<String>) -> bool {
    k matches Some(s) && s@.len() > 0
}

/// The setup persisted for a save request.
pub fn setup_config_from(req: &SaveRequest) -> (c: SetupConfig)
    ensures
        c.agent == req.agent,
        c.backend@ == req.backend@,
        opt_view(c.model) == opt_view(req.model),
        opt_view(c.ollama_base_url) == opt_view(req.ollama_base_url),
        c.api_key_stored == key_given(req.api_key),
{
    SetupConfig {
        agent: req.agent,
        backend: req.backend.clone(),
        model: opt_clone(&req.model),
        ollama_base_url: opt_clone(&req.ollama_base_url),
        api_key_stored: match &req.api_key {
            Some(k) => !k.as_str().is_empty(),
            None => false,
        },
    }
}

/// A save for the native agent with a blank model is refused.
pub fn native_model_rejected(req: &SaveRequest) -> (b: bool)
    ensures
        b == (req.agent == AgentKind::LightarchitectsNative && (req.model matches Some(m) && trim(m@).len() == 0)),
{
    if req.agent == AgentKind::LightarchitectsNative {
        match &req.model {
            Some(m) => trimmed(&chars_of(m.as_str())).len() == 0,
            None => false,
        }
    } else {
        false
    }
}

/// The setup assumed for the native agent when none was saved: the
/// `lightarchitects` backend with the CLI's configured model.
pub fn native_default_setup(model: Option<String>) -> (c: SetupConfig)
    ensures
        c.agent == AgentKind::LightarchitectsNative,
        c.backend@ == "lightarchitects"@,
        c.model == model,
        c.ollama_base_url is None,
        !c.api_key_stored,
{
    SetupConfig {
        agent: AgentKind::LightarchitectsNative,
        backend: String::from_str("lightarchitects"),
        model,
        ollama_base_url: None,
        api_key_stored: false,
    }
}

// ── The native CLI's config ─────────────────────────────────────────────────

/// The string at `key` of the sub-table `table` of the TOML document `text`,
/// when the text parses and holds one.
pub uninterp spec fn toml_table_string_of(text: Seq<char>, table: Seq<char>, key: Seq<char>) -> Option<Seq<char>>;

/// The TOML document `text` with the string `value` set at `key` of its
/// sub-table `table` (the sub-table made when absent, left alone when it is
/// not a table), written back pretty-printed; none when the text does not
/// parse.
pub uninterp spec fn toml_table_set_of(
    text: Seq<char>,
    table: Seq<char>,
    key: Seq<char>,
    value: Seq<char>,
) -> Option<Seq<char>>;

/// `text.parse::<toml::Table>()`, then `get(table)`, `as_table`, `get(key)`,
/// `as_str`.  Claimed of it: the result is a function of its arguments,
/// named `toml_table_string_of`.
#[verifier::external_body]
fn toml_table_string(text: &str, table: &str, key: &str) -> (r: Option<String>)
    ensures
        opt_chars(r) == toml_table_string_of(text@, table@, key@),
{
    match text.parse::<toml::Table>() {
        Ok(doc) => doc.get(table).and_then(toml::Value::as_table).and_then(|t| t.get(key)).and_then(
            toml::Value::as_str,
        ).map(String::from),
        Err(_) => None,
    }
}

/// `text.parse::<toml::Table>()`, `entry(table).or_insert_with` an empty
/// table, `insert(key, value)` into it when it is a table, then
/// `toml::to_string_pretty`.  Claimed of it: the result is a function of its
/// arguments, named `toml_table_set_of`.
#[verifier::external_body]
fn toml_table_set(text: &str, table: &str, key: &str, value: &str) -> (r: Option<String>)
    ensures
        opt_chars(r) == toml_table_set_of(text@, table@, key@, value@),
{
    let mut doc = match text.parse::<toml::Table>() {
        Ok(d) => d,
        Err(_) => return None,
    };
    let sub = doc.entry(table).or_insert_with(|| toml::Value::Table(toml::Table::new()));
    if let Some(t) = sub.as_table_mut() {
        t.insert(key.to_owned(), toml::Value::String(value.to_owned()));
    }
    toml::to_string_pretty(&doc).ok()
}

/// The model the native CLI's config text names under `[llm]`; none when
/// there is no config, it does not parse, or it names none.
pub fn cli_model_from_config(content: Option<&str>) -> (r: Option<String>)
    ensures
        opt_chars(r) == match content {
            Some(c) => toml_table_string_of(c@, "llm"@, "model"@),
            None => None,
        },
{
    match content {
        Some(c) => toml_table_string(c, "llm", "model"),
        None => None,
    }
}

/// The native CLI's config text with `model` set under `[llm]`, starting
/// from an empty document when there is no config; none when the config
/// does not parse.
pub fn cli_config_with_model(content: Option<&str>, model: &str) -> (r: Option<String>)
    ensures
        opt_chars(r) == toml_table_set_of(
            match content {
                Some(c) => c@,
                None => ""@,
            },
            "llm"@,
            "model"@,
            model@,
        ),
{
    let text = match content {
        Some(c) => c,
        None => "",
    };
    toml_table_set(text, "llm", "model", model)
}

// ── Credential sources ───────────────────────────────────────────────────────

/// Where a credential was found.
#[derive(Debug, Clone)]
pub enum CredentialLocator {
    Absent,
    Keychain { service: String },
    File { path: String },
    Env { var: String },
}

/// The login method of a locator: `none`, `keychain`, `file` or `api_key`.
pub open spec fn login_method_of(dl: CredentialLocator) -> Seq<char> {
    match dl {
        CredentialLocator::Absent => "none"@,
        CredentialLocator::Keychain { .. } => "keychain"@,
        CredentialLocator::File { .. } => "file"@,
        CredentialLocator::Env { .. } => "api_key"@,
    }
}

/// A human-readable source: `none`, `macOS Keychain (<service>)`, the file's
/// path, or `<VAR> env`.
pub open spec fn source_label_of(dl: CredentialLocator) -> Seq<char> {
    match dl {
        CredentialLocator::Absent => "none"@,
        CredentialLocator::Keychain { service } => "macOS Keychain ("@ + service@ + ")"@,
        CredentialLocator::File { path } => path@,
        CredentialLocator::Env { var } => var@ + " env"@,
    }
}

/// The login method of a locator.
pub fn login_method_from(dl: &CredentialLocator) -> (r: &'static str)
    ensures
        r@ == login_method_of(*dl),
{
    match dl {
        CredentialLocator::Absent => "none",
        CredentialLocator::Keychain { .. } => "keychain",
        CredentialLocator::File { .. } => "file",
        CredentialLocator::Env { .. } => "api_key",
    }
}

/// A human-readable source of a locator.
pub fn format_source(dl: &CredentialLocator) -> (r: String)
    ensures
        r@ == source_label_of(*dl),
{
    match dl {
        CredentialLocator::Absent => String::from_str("none"),
        CredentialLocator::Keychain { service } => String::from_str("macOS Keychain (").concat(
            service.as_str(),
        ).concat(")"),
        CredentialLocator::File { path } => path.clone(),
        CredentialLocator::Env { var } => var.clone().concat(" env"),
    }
}

/// A keychain or file credential counts as stored authentication.
pub fn has_stored_auth(dl: &CredentialLocator) -> (b: bool)
    ensures
        b == (dl is Keychain || dl is File),
{
    match dl {
        CredentialLocator::Keychain { .. } | CredentialLocator::File { .. } => true,
        _ => false,
    }
}

/// An Anthropic key counts unless empty or the sample placeholder.
pub fn anthropic_key_usable(key: Option<&str>) -> (b: bool)
    ensures
        b == (key matches Some(k) && k@.len() > 0 && k@ != "your_anthropic_key_here"@),
{
    match key {
        Some(k) => !k.is_empty() && !str_eq(k, "your_anthropic_key_here"),
        None => false,
    }
}

/// Auth status of the Anthropic backend.
#[derive(Debug, Clone)]
pub struct ClaudeAuthStatus {
    pub has_keychain_auth: bool,
    pub has_api_key: bool,
    pub login_method: String,
    pub login_source: String,
}

/// Auth status of the Codex backend.
#[derive(Debug, Clone)]
pub struct CodexAuthStatus {
    pub has_keychain_auth: bool,
    pub has_api_key: bool,
    pub login_method: String,
    pub login_source: String,
}

/// Connectivity of the Ollama backend.
#[derive(Debug, Clone)]
pub struct OllamaAuthStatus {
    pub base_url: String,
    pub reachable: bool,
}

/// Auth status of the native backend.
#[derive(Debug, Clone, Copy)]
pub struct LaNativeAuthStatus {
    pub has_api_key: bool,
}

/// All auth statuses.
#[derive(Debug, Clone)]
pub struct AuthStatus {
    pub claude: ClaudeAuthStatus,
    pub codex: CodexAuthStatus,
    pub ollama: OllamaAuthStatus,
    pub la_native: LaNativeAuthStatus,
}

/// Response of the setup info route.
#[derive(Debug)]
pub struct SetupInfoResponse {
    pub setup_complete: bool,
    pub config: Option<SetupConfig>,
    pub auth_status: AuthStatus,
    pub resume_session: Option<String>,
    pub cwd: String,
}

/// The Anthropic auth status from the probed locator and the key check.
pub fn claude_auth_status(dl: &CredentialLocator, has_api_key: bool) -> (s: ClaudeAuthStatus)
    ensures
        s.has_keychain_auth == (dl is Keychain || dl is File),
        s.has_api_key == has_api_key,
        s.login_method@ == login_method_of(*dl),
        s.login_source@ == source_label_of(*dl),
{
    ClaudeAuthStatus {
        has_keychain_auth: has_stored_auth(dl),
        has_api_key,
        login_method: String::from_str(login_method_from(dl)),
        login_source: format_source(dl),
    }
}

} // verus!
