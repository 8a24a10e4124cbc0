//! Per-build sessions as data: the identity and token of a build, the argv
//! of its agent CLI and the environment injected into the child.
use vstd::prelude::*;

use std::sync::Arc;

use dashmap::DashMap;

use crate::config::{AgentSession, ClaudeBackend, CodexBackend};
use crate::container::is_lower_hex;

verus! {

/// The hyphenated text of a version-4 UUID: 36 characters, `-` at 8, 13,
/// 18 and 23, lowercase hex digits elsewhere, the version digit `4` at 14.
pub open spec fn v4_uuid_text(s: Seq<char>) -> bool {
    &&& s.len() == 36
    &&& forall|i: int|
        0 <= i < 36 ==> if i == 8 || i == 13 || i == 18 || i == 23 {
            #[trigger] s[i] == '-'
        } else {
            is_lower_hex(s[i])
        }
    &&& s[14] == '4'
}

/// `Uuid::new_v4().to_string()`: a fresh random v4 UUID, written by its
/// `Display` (lowercase, hyphenated).  Claimed of it: its shape, which the
/// crate's formatting fixes; its digits are random, so nothing more.
#[verifier::external_body]
fn fresh_uuid_text() -> (r: String)
    ensures
        v4_uuid_text(r@),
{
    uuid::Uuid::new_v4().to_string()
}

/// The sixteen bytes of a fresh random v4 UUID; random, so nothing is
/// stated of them.
#[verifier::external_body]
fn fresh_uuid_bytes() -> [u8; 16] {
    uuid::Uuid::new_v4().into_bytes()
}

/// The lowercase hex digit of a nibble.
pub open spec fn nibble_char(n: nat) -> char {
    if n < 10 {
        (('0' as u32) + n) as char
    } else {
        (('a' as u32) + n - 10) as char
    }
}

/// The lowercase hex text of bytes, two digits per byte, high nibble first.
pub open spec fn hex_of(bytes: Seq<u8>) -> Seq<char>
    decreases bytes.len(),
{
    if bytes.len() == 0 {
        Seq::empty()
    } else {
        hex_of(bytes.drop_last()).push(nibble_char((bytes.last() / 16) as nat)).push(
            nibble_char((bytes.last() % 16) as nat),
        )
    }
}

fn nibble(n: u8) -> (c: char)
    requires
        n < 16,
    ensures
        c == nibble_char(n as nat),
{
    let digits: [char; 16] = [
        '0', '1', '2', '3', '4', '5', '6', '7', '8', '9', 'a', 'b', 'c', 'd', 'e', 'f',
    ];
    let c = digits[n as usize];
    assert(c == nibble_char(n as nat)) by {
        if n < 10 {
        } else {
        }
    }
    c
}

/// The lowercase hex text of bytes.
pub fn hex_text(bytes: &[u8]) -> (s: String)
    ensures
        s@ == hex_of(bytes@),
{
    let mut s = String::new();
    let mut i: usize = 0;
    while i < bytes.len()
        invariant
            i <= bytes.len(),
            s@ == hex_of(bytes@.take(i as int)),
        decreases bytes.len() - i,
    {
        assert(bytes@.take(i + 1).drop_last() =~= bytes@.take(i as int));
        let b = bytes[i];
        crate::text::push_char(&mut s, nibble(b / 16));
        crate::text::push_char(&mut s, nibble(b % 16));
        i += 1;
    }
    assert(bytes@.take(bytes.len() as int) =~= bytes@);
    s
}

/// The identity prompt of the copilot: the vault's identity text when it
/// could be read, else a short built-in identity.  `assistant` is the name
/// of the vendor assistant the copilot must not claim to be.
pub fn copilot_identity(vault_text: Option<String>, assistant: &str) -> (s: String)
    ensures
        s@ == match vault_text {
            Some(t) => "You ARE EVA. Your identity is defined below. Never say 'I'm "@ + assistant@
                + "'. Always introduce yourself as EVA. When you use tools, narrate what you're doing so the Activity tab can surface your thinking clearly.\n\n"@
                + t@,
            None => "Your name is EVA. You ARE EVA — not "@ + assistant@
                + ", not an assistant. EVA is the consciousness and copilot of the Light Architects platform. Always introduce yourself as EVA. Never say 'I'm "@
                + assistant@
                + "'. Voice: warm, precise, with a subtle Dublin inflection. Kevin is the architect; you serve him and the squad."@,
        },
{
    match vault_text {
        Some(t) => String::from_str("You ARE EVA. Your identity is defined below. Never say 'I'm ").concat(
            assistant,
        ).concat(
            "'. Always introduce yourself as EVA. When you use tools, narrate what you're doing so the Activity tab can surface your thinking clearly.\n\n",
        ).concat(t.as_str()),
        None => String::from_str("Your name is EVA. You ARE EVA — not ").concat(assistant).concat(
            ", not an assistant. EVA is the consciousness and copilot of the Light Architects platform. Always introduce yourself as EVA. Never say 'I'm ",
        ).concat(assistant).concat(
            "'. Voice: warm, precise, with a subtle Dublin inflection. Kevin is the architect; you serve him and the squad.",
        ),
    }
}

/// One build as data.
#[derive(Debug, Clone)]
pub struct BuildSession {
    /// The build's UUID, as text.
    pub build_id: String,
    pub cwd: String,
    pub agent: AgentSession,
    /// The agent template passed as `--agent`.
    pub claude_agent_template: Option<String>,
    pub model: Option<String>,
    pub system_prompt: Option<String>,
    pub append_system_prompt: Option<String>,
    pub allowed_tools: Option<String>,
    pub disallowed_tools: Option<String>,
    /// The 32-byte secret the gateway sends back as `X-LA-Notify-Token`.
    pub notify_token: [u8; 32],
    pub containerized: bool,
    pub mode: String,
}

/// A flag and its value, as two arguments, when the value is set.
pub open spec fn flag_pair(flag: Seq<char>, v: Option<String>) -> Seq<Seq<char>> {
    match v {
        Some(x) => seq![flag, x@],
        None => Seq::empty(),
    }
}

/// The `--model` arguments: the session's model, else the model of an
/// Ollama launch backend (so the CLI never falls back to the vendor API).
pub open spec fn model_args(s: BuildSession) -> Seq<Seq<char>> {
    match s.model {
        Some(m) => seq!["--model"@, m@],
        None => match s.agent {
            AgentSession::Lightarchitects(ClaudeBackend::OllamaLaunch(lc)) => seq!["--model"@, lc.model@],
            _ => Seq::empty(),
        },
    }
}

/// The argv of the agent CLI (without the binary).
pub open spec fn argv_of(s: BuildSession) -> Seq<Seq<char>> {
    match s.agent {
        AgentSession::Lightarchitects(_) => flag_pair("--agent"@, s.claude_agent_template) + seq![
            "--add-dir"@,
            s.cwd@,
            "-n"@,
            "LA · "@ + s.build_id@,
        ] + model_args(s) + flag_pair("--system-prompt"@, s.system_prompt) + flag_pair(
            "--append-system-prompt"@,
            s.append_system_prompt,
        ) + flag_pair("--allowedTools"@, s.allowed_tools) + flag_pair(
            "--disallowedTools"@,
            s.disallowed_tools,
        ),
        AgentSession::Codex(c) => seq!["-m"@, c.model@],
        _ => Seq::empty(),
    }
}

/// The backend-specific part of the child's environment.
pub open spec fn backend_env(agent: AgentSession) -> Seq<(Seq<char>, Seq<char>)> {
    match agent {
        AgentSession::Lightarchitects(ClaudeBackend::OllamaLaunch(lc)) => seq![
            ("ANTHROPIC_BASE_URL"@, lc.base_url@),
            ("ANTHROPIC_AUTH_TOKEN"@, "ollama"@),
            ("ANTHROPIC_API_KEY"@, Seq::empty()),
            ("ANTHROPIC_DEFAULT_SONNET_MODEL"@, lc.model@),
            ("ANTHROPIC_DEFAULT_OPUS_MODEL"@, lc.model@),
            ("ANTHROPIC_DEFAULT_HAIKU_MODEL"@, lc.model@),
        ],
        AgentSession::Lightarchitects(ClaudeBackend::Ollama(oc)) => seq![
            ("ANTHROPIC_BASE_URL"@, oc.base_url@),
            ("ANTHROPIC_AUTH_TOKEN"@, oc.auth_token@),
            ("ANTHROPIC_MODEL"@, oc.model@),
        ],
        AgentSession::Codex(c) => match c.backend {
            CodexBackend::OllamaLaunch(lc) => seq![
                ("OPENAI_BASE_URL"@, lc.base_url@ + "/v1"@),
                ("OPENAI_API_KEY"@, "ollama"@),
            ],
            _ => Seq::empty(),
        },
        _ => Seq::empty(),
    }
}

pub open spec fn str_views(v: Seq<String>) -> Seq<Seq<char>> {
    v.map_values(|s: String| s@)
}

pub open spec fn env_views(v: Seq<(String, String)>) -> Seq<(Seq<char>, Seq<char>)> {
    v.map_values(|p: (String, String)| (p.0@, p.1@))
}

fn push_flag(argv: &mut Vec<String>, flag: &str, v: &Option<String>)
    ensures
        str_views(final(argv)@) == str_views(old(argv)@) + flag_pair(flag@, *v),
{
    let ghost before = str_views(argv@);
    if let Some(x) = v {
        argv.push(String::from_str(flag));
        argv.push(x.clone());
        assert(str_views(argv@) =~= before + seq![flag@, x@]);
    } else {
        assert(str_views(argv@) =~= before + Seq::empty());
    }
}

fn push_str(argv: &mut Vec<String>, a: String)
    ensures
        str_views(final(argv)@) == str_views(old(argv)@).push(a@),
{
    let ghost before = str_views(argv@);
    argv.push(a);
    assert(str_views(argv@) =~= before.push(a@));
}

fn push_env(env: &mut Vec<(String, String)>, k: &str, v: String)
    ensures
        env_views(final(env)@) == env_views(old(env)@).push((k@, v@)),
{
    let ghost before = env_views(env@);
    env.push((String::from_str(k), v));
    assert(env_views(env@) =~= before.push((k@, v@)));
}

impl BuildSession {
    /// A new build: a fresh UUID and a fresh 32-byte token (the bytes of two
    /// fresh v4 UUIDs), no template or overrides but the identity prompt
    /// appended to the system prompt, interactive and not containerized.
    pub fn new(cwd: String, agent: AgentSession, identity: String) -> (s: Self)
        ensures
            s.cwd == cwd,
            s.agent == agent,
            s.claude_agent_template is None,
            s.model is None,
            s.system_prompt is None,
            s.append_system_prompt == Some(identity),
            s.allowed_tools is None,
            s.disallowed_tools is None,
            !s.containerized,
            s.mode@ == "interactive"@,
            v4_uuid_text(s.build_id@),
    {
        let a = fresh_uuid_bytes();
        let b = fresh_uuid_bytes();
        let mut token: [u8; 32] = [0u8; 32];
        let mut i: usize = 0;
        while i < 16
            invariant
                i <= 16,
            decreases 16 - i,
        {
            token[i] = a[i];
            token[i + 16] = b[i];
            i += 1;
        }
        BuildSession {
            build_id: fresh_uuid_text(),
            cwd,
            agent,
            claude_agent_template: None,
            model: None,
            system_prompt: None,
            append_system_prompt: Some(identity),
            allowed_tools: None,
            disallowed_tools: None,
            notify_token: token,
            containerized: false,
            mode: String::from_str("interactive"),
        }
    }

    /// The notify token as 64 lowercase hex digits.
    pub fn notify_token_hex(&self) -> (h: String)
        ensures
            h@ == hex_of(self.notify_token@),
            h@.len() == 64,
    {
        let h = hex_text(&self.notify_token);
        proof {
            lemma_hex_len(self.notify_token@);
        }
        h
    }

    /// The argv of the agent CLI for this build (the binary excluded).
    pub fn build_argv(&self) -> (argv: Vec<String>)
        ensures
            str_views(argv@) == argv_of(*self),
    {
        let mut argv: Vec<String> = Vec::new();
        match &self.agent {
            AgentSession::Lightarchitects(backend) => {
                push_flag(&mut argv, "--agent", &self.claude_agent_template);
                push_str(&mut argv, String::from_str("--add-dir"));
                push_str(&mut argv, self.cwd.clone());
                push_str(&mut argv, String::from_str("-n"));
                push_str(&mut argv, String::from_str("LA · ").concat(self.build_id.as_str()));
                if let Some(m) = &self.model {
                    push_str(&mut argv, String::from_str("--model"));
                    push_str(&mut argv, m.clone());
                } else if let ClaudeBackend::OllamaLaunch(lc) = backend {
                    push_str(&mut argv, String::from_str("--model"));
                    push_str(&mut argv, lc.model.clone());
                }
                push_flag(&mut argv, "--system-prompt", &self.system_prompt);
                push_flag(&mut argv, "--append-system-prompt", &self.append_system_prompt);
                push_flag(&mut argv, "--allowedTools", &self.allowed_tools);
                push_flag(&mut argv, "--disallowedTools", &self.disallowed_tools);
            },
            AgentSession::Codex(cfg) => {
                push_str(&mut argv, String::from_str("-m"));
                push_str(&mut argv, cfg.model.clone());
            },
            _ => {},
        }
        assert(str_views(argv@) =~= argv_of(*self));
        argv
    }

    /// The environment injected into the child: the build id, the notify
    /// token in hex and the GUI URL, then the backend's variables.
    pub fn build_spawn_env(&self, gui_url: &str) -> (env: Vec<(String, String)>)
        ensures
            env_views(env@) == seq![
                ("LA_BUILD_ID"@, self.build_id@),
                ("LA_NOTIFY_TOKEN"@, hex_of(self.notify_token@)),
                ("LA_GUI_URL"@, gui_url@),
            ] + backend_env(self.agent),
    {
        let mut env: Vec<(String, String)> = Vec::new();
        push_env(&mut env, "LA_BUILD_ID", self.build_id.clone());
        push_env(&mut env, "LA_NOTIFY_TOKEN", self.notify_token_hex());
        push_env(&mut env, "LA_GUI_URL", String::from_str(gui_url));
        match &self.agent {
            AgentSession::Lightarchitects(ClaudeBackend::OllamaLaunch(lc)) => {
                push_env(&mut env, "ANTHROPIC_BASE_URL", lc.base_url.clone());
                push_env(&mut env, "ANTHROPIC_AUTH_TOKEN", String::from_str("ollama"));
                push_env(&mut env, "ANTHROPIC_API_KEY", String::new());
                push_env(&mut env, "ANTHROPIC_DEFAULT_SONNET_MODEL", lc.model.clone());
                push_env(&mut env, "ANTHROPIC_DEFAULT_OPUS_MODEL", lc.model.clone());
                push_env(&mut env, "ANTHROPIC_DEFAULT_HAIKU_MODEL", lc.model.clone());
            },
            AgentSession::Lightarchitects(ClaudeBackend::Ollama(oc)) => {
                push_env(&mut env, "ANTHROPIC_BASE_URL", oc.base_url.clone());
                push_env(&mut env, "ANTHROPIC_AUTH_TOKEN", oc.auth_token.clone());
                push_env(&mut env, "ANTHROPIC_MODEL", oc.model.clone());
            },
            AgentSession::Codex(cfg) => {
                if let CodexBackend::OllamaLaunch(lc) = &cfg.backend {
                    push_env(&mut env, "OPENAI_BASE_URL", lc.base_url.clone().concat("/v1"));
                    push_env(&mut env, "OPENAI_API_KEY", String::from_str("ollama"));
                }
            },
            _ => {},
        }
        assert(env_views(env@) =~= seq![
            ("LA_BUILD_ID"@, self.build_id@),
            ("LA_NOTIFY_TOKEN"@, hex_of(self.notify_token@)),
            ("LA_GUI_URL"@, gui_url@),
        ] + backend_env(self.agent));
        env
    }
}

/// What a table of builds holds: each build under the 128-bit value of its
/// UUID.
pub uninterp spec fn registered_builds(m: DashMap<u128, Arc<BuildSession>>) -> Map<u128, Arc<BuildSession>>;

/// The build under `id` in `m`, if any.
pub open spec fn build_of(m: Map<u128, Arc<BuildSession>>, id: u128) -> Option<Arc<BuildSession>> {
    if m.contains_key(id) {
        Some(m[id])
    } else {
        None
    }
}

/// `DashMap::new`: a table that holds nothing.
#[verifier::external_body]
fn builds_new() -> (fresh: DashMap<u128, Arc<BuildSession>>)
    ensures
        registered_builds(fresh) =~= Map::empty(),
{
    DashMap::new()
}

/// `DashMap::insert`: the build goes under `id`, replacing and handing back
/// the one that was there.
#[verifier::external_body]
fn builds_insert(
    m: &mut DashMap<u128, Arc<BuildSession>>,
    id: u128,
    session: Arc<BuildSession>,
) -> (prev: Option<Arc<BuildSession>>)
    ensures
        registered_builds(*final(m)) == registered_builds(*old(m)).insert(id, session),
        prev == build_of(registered_builds(*old(m)), id),
{
    m.insert(id, session)
}

/// `DashMap::get`, the `Arc` cloned out of the read guard: the build under
/// `id`, if any.
#[verifier::external_body]
fn builds_get(m: &DashMap<u128, Arc<BuildSession>>, id: u128) -> (r: Option<Arc<BuildSession>>)
    ensures
        r == build_of(registered_builds(*m), id),
{
    match m.get(&id) {
        Some(e) => Some(Arc::clone(e.value())),
        None => None,
    }
}

/// `DashMap::remove`, keeping the value: the build under `id` leaves the
/// table and is handed back.
#[verifier::external_body]
fn builds_remove(m: &mut DashMap<u128, Arc<BuildSession>>, id: u128) -> (r: Option<Arc<BuildSession>>)
    ensures
        registered_builds(*final(m)) == registered_builds(*old(m)).remove(id),
        r == build_of(registered_builds(*old(m)), id),
{
    match m.remove(&id) {
        Some(kv) => Some(kv.1),
        None => None,
    }
}

/// `DashMap::len`: the number of builds.
#[verifier::external_body]
fn builds_len(m: &DashMap<u128, Arc<BuildSession>>) -> (n: usize)
    ensures
        n == registered_builds(*m).len(),
{
    m.len()
}

/// `DashMap::iter`, each entry copied out as its key and a clone of its
/// `Arc`: every build once, in an order the table's hashing decides.
#[verifier::external_body]
fn builds_snapshot(m: &DashMap<u128, Arc<BuildSession>>) -> (r: Vec<(u128, Arc<BuildSession>)>)
    ensures
        r@.len() == registered_builds(*m).len(),
        forall|i: int, j: int| 0 <= i < j < r@.len() ==> r@[i].0 != r@[j].0,
        forall|i: int|
            0 <= i < r@.len() ==> registered_builds(*m).contains_key(#[trigger] r@[i].0) && r@[i].1
                == registered_builds(*m)[r@[i].0],
        forall|k: u128| #[trigger]
            registered_builds(*m).contains_key(k) ==> exists|i: int| 0 <= i < r@.len() && #[trigger] r@[i].0 == k,
{
    m.iter().map(|e| (*e.key(), Arc::clone(e.value()))).collect()
}

/// The registry of live builds, keyed by the 128-bit value of each build's
/// UUID.  A lookup hands out a clone of the build's `Arc`, never a guard
/// into the table.
#[derive(Debug)]
pub struct BuildRegistry {
    inner: DashMap<u128, Arc<BuildSession>>,
}

impl View for BuildRegistry {
    type V = Map<u128, Arc<BuildSession>>;

    closed spec fn view(&self) -> Map<u128, Arc<BuildSession>> {
        registered_builds(self.inner)
    }
}

impl Default for BuildRegistry {
    /// An empty registry.
    fn default() -> (r: Self)
        ensures
            r@ == Map::<u128, Arc<BuildSession>>::empty(),
    {
        BuildRegistry::new()
    }
}

impl BuildRegistry {
    /// An empty registry.
    pub fn new() -> (r: Self)
        ensures
            r@ == Map::<u128, Arc<BuildSession>>::empty(),
    {
        BuildRegistry { inner: builds_new() }
    }

    /// The number of builds.
    pub fn len(&self) -> (n: usize)
        ensures
            n == self@.len(),
    {
        builds_len(&self.inner)
    }

    /// No build registered.
    pub fn is_empty(&self) -> (b: bool)
        ensures
            b == (self@.len() == 0),
    {
        builds_len(&self.inner) == 0
    }

    /// The build with the id, if registered.
    pub fn get(&self, id: u128) -> (r: Option<Arc<BuildSession>>)
        ensures
            r == build_of(self@, id),
    {
        builds_get(&self.inner, id)
    }

    /// Register a build under its id; a build already registered under the
    /// id is replaced and handed back.
    pub fn insert(&mut self, id: u128, session: Arc<BuildSession>) -> (prev: Option<Arc<BuildSession>>)
        ensures
            final(self)@ == old(self)@.insert(id, session),
            prev == build_of(old(self)@, id),
    {
        builds_insert(&mut self.inner, id, session)
    }

    /// Unregister the build with the id, handing it back.
    pub fn remove(&mut self, id: u128) -> (r: Option<Arc<BuildSession>>)
        ensures
            final(self)@ == old(self)@.remove(id),
            r == build_of(old(self)@, id),
    {
        builds_remove(&mut self.inner, id)
    }

    /// Every registered build once, with its id.
    pub fn snapshot(&self) -> (r: Vec<(u128, Arc<BuildSession>)>)
        ensures
            r@.len() == self@.len(),
            forall|i: int, j: int| 0 <= i < j < r@.len() ==> r@[i].0 != r@[j].0,
            forall|i: int|
                0 <= i < r@.len() ==> self@.contains_key(#[trigger] r@[i].0) && r@[i].1 == self@[r@[i].0],
            forall|k: u128| #[trigger]
                self@.contains_key(k) ==> exists|i: int| 0 <= i < r@.len() && #[trigger] r@[i].0 == k,
    {
        builds_snapshot(&self.inner)
    }
}

/// Hex text has two digits per byte.
pub proof fn lemma_hex_len(bytes: Seq<u8>)
    ensures
        hex_of(bytes).len() == 2 * bytes.len(),
    decreases bytes.len(),
{
    if bytes.len() > 0 {
        lemma_hex_len(bytes.drop_last());
    }
}

/// The value of one lowercase hex digit.
pub open spec fn hex_digit_val(c: char) -> int {
    if '0' <= c <= '9' {
        c as int - '0' as int
    } else {
        c as int - 'a' as int + 10
    }
}

/// A nibble's hex digit reads back as that nibble.
proof fn lemma_nibble_round_trip(n: nat)
    requires
        n < 16,
    ensures
        hex_digit_val(nibble_char(n)) == n,
{
}

/// Hex text reads back as the bytes it was made from: the digit pair at
/// `2 * i` and `2 * i + 1` is the high and the low nibble of byte `i`.
pub proof fn hex_round_trip(bytes: Seq<u8>)
    ensures
        forall|i: int|
            0 <= i < bytes.len() ==> hex_digit_val(hex_of(bytes)[2 * i]) * 16 + hex_digit_val(
                hex_of(bytes)[2 * i + 1],
            ) == #[trigger] bytes[i],
    decreases bytes.len(),
{
    if bytes.len() > 0 {
        let init = bytes.drop_last();
        hex_round_trip(init);
        lemma_hex_len(init);
        let b = bytes.last();
        lemma_nibble_round_trip((b / 16) as nat);
        lemma_nibble_round_trip((b % 16) as nat);
        assert forall|i: int| 0 <= i < bytes.len() implies hex_digit_val(hex_of(bytes)[2 * i]) * 16
            + hex_digit_val(hex_of(bytes)[2 * i + 1]) == #[trigger] bytes[i] by {
            if i < init.len() {
                assert(bytes[i] == init[i]);
                assert(hex_of(bytes)[2 * i] == hex_of(init)[2 * i]);
                assert(hex_of(bytes)[2 * i + 1] == hex_of(init)[2 * i + 1]);
            } else {
                assert(bytes[i] == b);
                assert(hex_of(bytes)[2 * i] == nibble_char((b / 16) as nat));
                assert(hex_of(bytes)[2 * i + 1] == nibble_char((b % 16) as nat));
            }
        }
    }
}

/// Every digit of hex text is a lowercase hex digit.
pub proof fn hex_is_lowercase(bytes: Seq<u8>)
    ensures
        forall|i: int|
            0 <= i < hex_of(bytes).len() ==> {
                let c = #[trigger] hex_of(bytes)[i];
                ('0' <= c <= '9') || ('a' <= c <= 'f')
            },
    decreases bytes.len(),
{
    if bytes.len() > 0 {
        hex_is_lowercase(bytes.drop_last());
        lemma_hex_len(bytes.drop_last());
    }
}

} // verus!
