//! The agent configuration shared by setup, terminal respawn and fork.
use vstd::prelude::*;

verus! {

/// Which agent binary drives a session.
#[derive(Debug, Clone, Copy, PartialEq, Eq, Structural)]
pub enum AgentKind {
    Lightarchitects,
    Codex,
    LightarchitectsNative,
    MistralVibe,
}

impl Default for AgentKind {
    fn default() -> (k: AgentKind)
        ensures
            k == AgentKind::Lightarchitects,
    {
        AgentKind::Lightarchitects
    }
}

/// An Ollama endpoint that serves a model to an agent.
#[derive(Debug, Clone)]
pub struct OllamaLaunchConfig {
    pub model: String,
    pub base_url: String,
}

/// An Anthropic-compatible HTTP endpoint of Ollama, with its token.
#[derive(Debug, Clone)]
pub struct OllamaConfig {
    pub base_url: String,
    pub model: String,
    pub auth_token: String,
}

/// Where the Lightarchitects agent gets its model.
#[derive(Debug, Clone)]
pub enum ClaudeBackend {
    Anthropic,
    OllamaLaunch(OllamaLaunchConfig),
    Ollama(OllamaConfig),
}

/// Where the Codex agent gets its model.
#[derive(Debug, Clone)]
pub enum CodexBackend {
    OpenAi,
    OllamaLaunch(OllamaLaunchConfig),
}

/// The Codex agent: its model and backend.
#[derive(Debug, Clone)]
pub struct CodexConfig {
    pub model: String,
    pub backend: CodexBackend,
}

/// The native CLI agent: its binary and optional model.
#[derive(Debug, Clone)]
pub struct LightarchitectsNativeConfig {
    pub binary: String,
    pub model: Option<String>,
}

/// The Mistral Vibe agent: its optional model.
#[derive(Debug, Clone, Default)]
pub struct MistralVibeConfig {
    pub model: Option<String>,
}

/// The active agent and its configuration.
#[derive(Debug, Clone)]
pub enum AgentSession {
    Lightarchitects(ClaudeBackend),
    Codex(CodexConfig),
    LightarchitectsNative(LightarchitectsNativeConfig),
    MistralVibe(MistralVibeConfig),
}

impl AgentSession {
    /// The kind of agent this session runs.
    pub fn kind(&self) -> (k: AgentKind)
        ensures
            k == match self {
                AgentSession::Lightarchitects(_) => AgentKind::Lightarchitects,
                AgentSession::Codex(_) => AgentKind::Codex,
                AgentSession::LightarchitectsNative(_) => AgentKind::LightarchitectsNative,
                AgentSession::MistralVibe(_) => AgentKind::MistralVibe,
            },
    {
        match self {
            AgentSession::Lightarchitects(_) => AgentKind::Lightarchitects,
            AgentSession::Codex(_) => AgentKind::Codex,
            AgentSession::LightarchitectsNative(_) => AgentKind::LightarchitectsNative,
            AgentSession::MistralVibe(_) => AgentKind::MistralVibe,
        }
    }
}

} // verus!
