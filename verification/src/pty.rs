//! Hot respawn of the global terminal child: request validation, the
//! continuity decision, the child's command line and the respawn state.
use vstd::prelude::*;

use crate::config::AgentKind;
use crate::text::{alnum, chars_of, is_alnum};

verus! {

/// Lifecycle state of the global terminal child.
#[derive(Debug, Clone, Copy, PartialEq, Eq, Structural)]
pub enum PtyState {
    /// No child running yet.
    Idle,
    /// Child is running normally.
    Running,
    /// A respawn is in progress.
    Respawning,
    /// The last spawn attempt failed.
    Failed,
}

impl Default for PtyState {
    fn default() -> (s: PtyState)
        ensures
            s == PtyState::Idle,
    {
        PtyState::Idle
    }
}

/// Request body of a respawn.
#[derive(Debug, Clone)]
pub struct RespawnRequest {
    pub agent: AgentKind,
    pub model: Option<String>,
}

/// Response body of a successful respawn.
#[derive(Debug)]
pub struct RespawnResponse {
    /// Always `respawned`.
    pub status: &'static str,
    pub agent_kind: AgentKind,
    pub model: Option<String>,
    /// `resumed` for the same agent, `clean_slate` across agents.
    pub conversation_continuity: &'static str,
    pub old_agent_kind: AgentKind,
}

/// Characters allowed in a model override.
pub open spec fn is_model_char(c: char) -> bool {
    is_alnum(c) || c == '.' || c == '-' || c == '_'
}

/// A model override: not empty, at most 100 bytes, only letters, digits,
/// `.`, `-`, `_`, and not starting with `-`.
pub open spec fn valid_model(m: &str) -> bool {
    m@.len() > 0 && m.len() <= 100 && (forall|i: int|
        0 <= i < m@.len() ==> is_model_char(#[trigger] m@[i])) && m@[0] != '-'
}

/// Validate a model override before it becomes a command-line argument.
pub fn validate_model(model: &str) -> (b: bool)
    ensures
        b == valid_model(model),
{
    if model.is_empty() || model.len() > 100 {
        return false;
    }
    let v = chars_of(model);
    let mut i: usize = 0;
    while i < v.len()
        invariant
            v@ == model@,
            model@.len() > 0 && model.len() <= 100,
            i <= v.len(),
            forall|j: int| 0 <= j < i ==> is_model_char(#[trigger] v@[j]),
        decreases v.len() - i,
    {
        let c = v[i];
        if !(alnum(c) || c == '.' || c == '-' || c == '_') {
            assert(!is_model_char(model@[i as int]));
            return false;
        }
        i += 1;
    }
    v[0] != '-'
}

/// The binary of an agent: the configured host command for the
/// Lightarchitects agent, a bare binary name for the others.
pub open spec fn host_cmd_of(agent: AgentKind, host_cmd: Seq<char>) -> Seq<char> {
    match agent {
        AgentKind::Lightarchitects => host_cmd,
        AgentKind::LightarchitectsNative => "lightarchitects-cli"@,
        AgentKind::Codex => "codex"@,
        AgentKind::MistralVibe => "vibe"@,
    }
}

/// Resolve the binary of an agent.
pub fn resolve_host_cmd(agent: AgentKind, host_cmd: &str) -> (r: String)
    ensures
        r@ == host_cmd_of(agent, host_cmd@),
{
    match agent {
        AgentKind::Lightarchitects => String::from_str(host_cmd),
        AgentKind::LightarchitectsNative => String::from_str("lightarchitects-cli"),
        AgentKind::Codex => String::from_str("codex"),
        AgentKind::MistralVibe => String::from_str("vibe"),
    }
}

/// The credential slot an agent reads.
pub open spec fn provider_of(agent: AgentKind) -> Seq<char> {
    match agent {
        AgentKind::Lightarchitects | AgentKind::LightarchitectsNative => "anthropic"@,
        AgentKind::Codex => "openai"@,
        AgentKind::MistralVibe => "mistral"@,
    }
}

/// The credential slot an agent reads.
pub fn provider_key(agent: AgentKind) -> (r: &'static str)
    ensures
        r@ == provider_of(agent),
{
    match agent {
        AgentKind::Lightarchitects | AgentKind::LightarchitectsNative => "anthropic",
        AgentKind::Codex => "openai",
        AgentKind::MistralVibe => "mistral",
    }
}

/// A credential is available when the store holds the agent's provider or
/// its environment key is set; otherwise the provider is named.
pub fn verify_credential_for(agent: AgentKind, in_store: bool, env_present: bool) -> (r: Result<
    (),
    String,
>)
    ensures
        (in_store || env_present) ==> r is Ok,
        !(in_store || env_present) ==> (r matches Err(p) && p@ == provider_of(agent)),
{
    if in_store || env_present {
        Ok(())
    } else {
        Err(String::from_str(provider_key(agent)))
    }
}

/// The environment variable that can stand in for an agent's credential.
pub fn credential_env_var(agent: AgentKind) -> (r: &'static str)
    ensures
        r@ == match agent {
            AgentKind::Lightarchitects | AgentKind::LightarchitectsNative => "ANTHROPIC_API_KEY"@,
            AgentKind::Codex => "OPENAI_API_KEY"@,
            AgentKind::MistralVibe => "MISTRAL_API_KEY"@,
        },
{
    match agent {
        AgentKind::Lightarchitects | AgentKind::LightarchitectsNative => "ANTHROPIC_API_KEY",
        AgentKind::Codex => "OPENAI_API_KEY",
        AgentKind::MistralVibe => "MISTRAL_API_KEY",
    }
}

/// `resumed` when the new agent is the one that ran, else `clean_slate`.
pub fn continuity_mode(new_agent: AgentKind, old_agent: AgentKind) -> (r: &'static str)
    ensures
        new_agent == old_agent ==> r@ == "resumed"@,
        new_agent != old_agent ==> r@ == "clean_slate"@,
{
    if new_agent == old_agent {
        "resumed"
    } else {
        "clean_slate"
    }
}

/// The session to resume: the configured one, but only for the same agent.
pub fn resume_id_for(new_agent: AgentKind, old_agent: AgentKind, configured: Option<String>) -> (r:
    Option<String>)
    ensures
        new_agent == old_agent ==> r == configured,
        new_agent != old_agent ==> r is None,
{
    if new_agent == old_agent {
        configured
    } else {
        None
    }
}

/// Arguments of the new child: `--model <m>` when a model is given, then
/// `--resume <id>` when a session is resumed.
pub fn child_args(model: Option<String>, resume_id: Option<String>) -> (args: Vec<String>)
    ensures
        args.len() == (if model is Some {
            2int
        } else {
            0
        }) + (if resume_id is Some {
            2int
        } else {
            0
        }),
        model is Some ==> args@[0]@ == "--model"@ && args@[1] == model->0,
        resume_id is Some ==> ({
            let k = if model is Some {
                2int
            } else {
                0
            };
            args@[k]@ == "--resume"@ && args@[k + 1] == resume_id->0
        }),
{
    let mut args: Vec<String> = Vec::new();
    if let Some(m) = model {
        args.push(String::from_str("--model"));
        args.push(m);
    }
    if let Some(id) = resume_id {
        args.push(String::from_str("--resume"));
        args.push(id);
    }
    args
}

/// Enter the respawning state; refused (state unchanged) while a respawn is
/// already in progress.
pub fn begin_respawn(state: &mut PtyState) -> (started: bool)
    ensures
        started == (*old(state) != PtyState::Respawning),
        *final(state) == PtyState::Respawning,
{
    if *state == PtyState::Respawning {
        false
    } else {
        *state = PtyState::Respawning;
        true
    }
}

/// Leave the respawning state: running after a spawn, failed otherwise.
pub fn finish_respawn(state: &mut PtyState, spawned: bool)
    ensures
        *final(state) == if spawned {
            PtyState::Running
        } else {
            PtyState::Failed
        },
{
    *state = if spawned {
        PtyState::Running
    } else {
        PtyState::Failed
    };
}

/// A model override as text (its byte length being its UTF-8 length).
pub open spec fn valid_model_text(m: Seq<char>) -> bool {
    m.len() > 0 && (vstd::utf8::encode_utf8(m).len() as usize) <= 100 && (forall|i: int|
        0 <= i < m.len() ==> is_model_char(#[trigger] m[i])) && m[0] != '-'
}

/// Why a respawn is refused before the running child is touched.
#[derive(Debug, Clone, PartialEq, Eq)]
pub enum RespawnRefusal {
    /// 412: no credential for this provider.
    MissingCredential(String),
    /// 422: the model override is not allowed.
    InvalidModel,
    /// 409: another respawn is in progress.
    InProgress,
}

/// Screen a respawn request and, when it passes, enter the respawning
/// state: the credential first (412), then the model (422), then a respawn
/// already in progress (409); the state changes only when the respawn may go on.
pub fn respawn_precheck(
    req: &RespawnRequest,
    credential_in_store: bool,
    credential_in_env: bool,
    state: &mut PtyState,
) -> (r: Result<(), RespawnRefusal>)
    ensures
        !(credential_in_store || credential_in_env) ==> (r matches Err(RespawnRefusal::MissingCredential(p))
            && p@ == provider_of(req.agent)) && *final(state) == *old(state),
        (credential_in_store || credential_in_env) && (req.model matches Some(m) && !valid_model_text(m@))
            ==> r == Err::<(), RespawnRefusal>(RespawnRefusal::InvalidModel) && *final(state) == *old(state),
        (credential_in_store || credential_in_env) && !(req.model matches Some(m) && !valid_model_text(m@))
            && *old(state) == PtyState::Respawning ==> r == Err::<(), RespawnRefusal>(RespawnRefusal::InProgress)
            && *final(state) == *old(state),
        (credential_in_store || credential_in_env) && !(req.model matches Some(m) && !valid_model_text(m@))
            && *old(state) != PtyState::Respawning ==> r is Ok && *final(state) == PtyState::Respawning,
{
    if let Err(p) = verify_credential_for(req.agent, credential_in_store, credential_in_env) {
        return Err(RespawnRefusal::MissingCredential(p));
    }
    if let Some(m) = &req.model {
        if !validate_model(m.as_str()) {
            return Err(RespawnRefusal::InvalidModel);
        }
    }
    if begin_respawn(state) {
        Ok(())
    } else {
        Err(RespawnRefusal::InProgress)
    }
}

} // verus!
