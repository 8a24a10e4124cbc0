use std::sync::Arc;
use std::collections::HashSet;

use lightarchitects_webshell::config::{
    AgentSession, ClaudeBackend, CodexBackend, CodexConfig, LightarchitectsNativeConfig,
    OllamaConfig, OllamaLaunchConfig,
};
use lightarchitects_webshell::session::{copilot_identity, hex_text, BuildRegistry, BuildSession};

fn anthropic_session() -> AgentSession {
    AgentSession::Lightarchitects(ClaudeBackend::Anthropic)
}

fn ollama_session() -> AgentSession {
    AgentSession::Lightarchitects(ClaudeBackend::Ollama(OllamaConfig {
        base_url: "http://localhost:11434".to_owned(),
        model: "qwen3-coder:480b-cloud".to_owned(),
        auth_token: "ollama-secret-xyz".to_owned(),
    }))
}

fn new_session(cwd: &str, agent: AgentSession) -> BuildSession {
    BuildSession::new(cwd.to_string(), agent, "identity".to_string())
}

#[test]
fn new_session_has_fresh_uuid() {
    let a = new_session("/tmp", anthropic_session());
    let b = new_session("/tmp", anthropic_session());
    assert_ne!(a.build_id, b.build_id, "fresh UUIDs must differ");
    assert_eq!(a.build_id.len(), 36);
}

#[test]
fn new_session_id_is_hyphenated_lowercase_v4() {
    let s = new_session("/tmp", anthropic_session());
    let c: Vec<char> = s.build_id.chars().collect();
    assert_eq!(c.len(), 36);
    for (i, ch) in c.iter().enumerate() {
        if [8, 13, 18, 23].contains(&i) {
            assert_eq!(*ch, '-');
        } else {
            assert!(ch.is_ascii_digit() || ('a'..='f').contains(ch), "{}", s.build_id);
        }
    }
    assert_eq!(c[14], '4');
}

#[test]
fn new_session_has_fresh_notify_token() {
    let a = new_session("/tmp", anthropic_session());
    let b = new_session("/tmp", anthropic_session());
    assert_ne!(a.notify_token, b.notify_token, "fresh tokens must differ");
}

#[test]
fn notify_token_hex_is_64_lowercase_chars() {
    let s = new_session("/tmp", anthropic_session());
    let hex = s.notify_token_hex();
    assert_eq!(hex.len(), 64, "32 bytes → 64 hex chars");
    assert!(hex.chars().all(|c| c.is_ascii_digit() || ('a'..='f').contains(&c)), "must be lowercase hex: {hex}");
}

#[test]
fn notify_token_hex_reads_back_as_the_token() {
    let s = new_session("/tmp", anthropic_session());
    let hex = s.notify_token_hex();
    for i in 0..32 {
        assert_eq!(u8::from_str_radix(&hex[2 * i..2 * i + 2], 16), Ok(s.notify_token[i]));
    }
}

#[test]
fn hex_text_is_high_nibble_first() {
    assert_eq!(hex_text(&[0x00, 0x0f, 0xa5, 0xff]), "000fa5ff");
}

#[test]
fn argv_anthropic_no_template_has_add_dir_and_name() {
    let s = new_session("/tmp/build-1", anthropic_session());
    let argv = s.build_argv();
    assert!(!argv.iter().any(|a| a == "--agent"), "no template → no --agent");
    assert!(argv.iter().any(|a| a == "--add-dir"));
    assert!(argv.iter().any(|a| a == "/tmp/build-1"));
    assert!(argv.iter().any(|a| a == "-n"));
    assert!(argv.iter().any(|a| a.contains("LA · ")));
}

#[test]
fn argv_with_agent_template_includes_agent_flag() {
    let mut s = new_session("/tmp", anthropic_session());
    s.claude_agent_template = Some("corso".to_owned());
    let argv = s.build_argv();
    let idx = argv.iter().position(|a| a == "--agent").expect("--agent present");
    assert_eq!(argv[idx + 1], "corso");
}

#[test]
fn argv_includes_all_optional_overrides_when_set() {
    let mut s = new_session("/tmp", anthropic_session());
    s.model = Some("opus".to_owned());
    s.system_prompt = Some("sp".to_owned());
    s.append_system_prompt = Some("asp".to_owned());
    s.allowed_tools = Some("Read Grep".to_owned());
    s.disallowed_tools = Some("Bash".to_owned());
    let argv = s.build_argv();
    assert!(argv.windows(2).any(|w| w == ["--model", "opus"]));
    assert!(argv.windows(2).any(|w| w == ["--system-prompt", "sp"]));
    assert!(argv.windows(2).any(|w| w == ["--append-system-prompt", "asp"]));
    assert!(argv.windows(2).any(|w| w == ["--allowedTools", "Read Grep"]));
    assert!(argv.windows(2).any(|w| w == ["--disallowedTools", "Bash"]));
}

#[test]
fn argv_ollama_launch_pins_the_model() {
    let s = new_session(
        "/w",
        AgentSession::Lightarchitects(ClaudeBackend::OllamaLaunch(OllamaLaunchConfig {
            model: "glm".into(),
            base_url: "http://localhost:11434".into(),
        })),
    );
    let argv = s.build_argv();
    assert!(argv.windows(2).any(|w| w == ["--model", "glm"]));
    let codex = new_session(
        "/w",
        AgentSession::Codex(CodexConfig { model: "gpt-5".into(), backend: CodexBackend::OpenAi }),
    );
    assert_eq!(codex.build_argv(), vec!["-m".to_string(), "gpt-5".to_string()]);
}

#[test]
fn env_anthropic_has_only_la_vars() {
    let s = new_session("/tmp", anthropic_session());
    let env = s.build_spawn_env("http://localhost:8733");
    let keys: Vec<&str> = env.iter().map(|(k, _)| k.as_str()).collect();
    assert!(keys.contains(&"LA_BUILD_ID"));
    assert!(keys.contains(&"LA_NOTIFY_TOKEN"));
    assert!(keys.contains(&"LA_GUI_URL"));
    assert!(!keys.iter().any(|k| k.starts_with("ANTHROPIC_")));
}

#[test]
fn env_ollama_has_anthropic_overrides() {
    let s = new_session("/tmp", ollama_session());
    let env = s.build_spawn_env("http://localhost:8733");
    let map: std::collections::HashMap<_, _> = env.iter().map(|(k, v)| (k.as_str(), v.as_str())).collect();
    assert_eq!(map.get("ANTHROPIC_BASE_URL"), Some(&"http://localhost:11434"));
    assert_eq!(map.get("ANTHROPIC_AUTH_TOKEN"), Some(&"ollama-secret-xyz"));
    assert_eq!(map.get("ANTHROPIC_MODEL"), Some(&"qwen3-coder:480b-cloud"));
}

#[test]
fn env_codex_ollama_launch_points_at_v1() {
    let s = new_session(
        "/tmp",
        AgentSession::Codex(CodexConfig {
            model: "m".into(),
            backend: CodexBackend::OllamaLaunch(OllamaLaunchConfig {
                model: "m".into(),
                base_url: "http://h:1".into(),
            }),
        }),
    );
    let env = s.build_spawn_env("g");
    assert_eq!(env[3], ("OPENAI_BASE_URL".to_string(), "http://h:1/v1".to_string()));
    assert_eq!(env[4], ("OPENAI_API_KEY".to_string(), "ollama".to_string()));
}

#[test]
fn env_la_build_id_matches_session_uuid() {
    let s = new_session("/tmp", anthropic_session());
    let env = s.build_spawn_env("http://localhost:8733");
    let build_id_val = env.iter().find_map(|(k, v)| (k == "LA_BUILD_ID").then_some(v.as_str()));
    assert_eq!(build_id_val, Some(s.build_id.as_str()));
}

#[test]
fn env_la_notify_token_is_hex_encoding() {
    let s = new_session("/tmp", anthropic_session());
    let env = s.build_spawn_env("http://localhost:8733");
    let hex_val = env
        .iter()
        .find_map(|(k, v)| (k == "LA_NOTIFY_TOKEN").then_some(v.as_str()))
        .expect("LA_NOTIFY_TOKEN present");
    assert_eq!(hex_val, s.notify_token_hex());
}

fn key_of(s: &BuildSession) -> u128 {
    u128::from_str_radix(&s.build_id.replace('-', ""), 16).expect("build id is a UUID")
}

#[test]
fn registry_insert_and_get() {
    let mut reg = BuildRegistry::new();
    let session = Arc::new(new_session("/tmp", anthropic_session()));
    let id = key_of(&session);
    reg.insert(id, Arc::clone(&session));
    assert_eq!(reg.len(), 1);
    let got = reg.get(id).expect("session present");
    assert_eq!(got.build_id, session.build_id);
}

#[test]
fn registry_insert_hands_back_the_replaced_build() {
    let mut reg = BuildRegistry::new();
    let a = Arc::new(new_session("/tmp/a", anthropic_session()));
    let b = Arc::new(new_session("/tmp/b", anthropic_session()));
    assert!(reg.insert(7, Arc::clone(&a)).is_none());
    let prev = reg.insert(7, Arc::clone(&b)).expect("a was registered");
    assert!(Arc::ptr_eq(&prev, &a));
    assert_eq!(reg.len(), 1);
    assert_eq!(reg.get(7).map(|s| s.cwd.clone()), Some("/tmp/b".to_string()));
}

#[test]
fn registry_remove_empties() {
    let mut reg = BuildRegistry::new();
    let session = Arc::new(new_session("/tmp", anthropic_session()));
    let id = key_of(&session);
    reg.insert(id, session);
    reg.remove(id);
    assert!(reg.is_empty());
    assert!(reg.remove(id).is_none());
}

#[test]
fn registry_snapshot_returns_all_sessions() {
    let mut reg = BuildRegistry::new();
    let a = Arc::new(new_session("/tmp", anthropic_session()));
    let b = Arc::new(new_session("/tmp", anthropic_session()));
    reg.insert(key_of(&a), Arc::clone(&a));
    reg.insert(key_of(&b), Arc::clone(&b));
    let snap = reg.snapshot();
    assert_eq!(snap.len(), 2);
    let ids: HashSet<u128> = snap.iter().map(|(id, _)| *id).collect();
    assert!(ids.contains(&key_of(&a)));
    assert!(ids.contains(&key_of(&b)));
}

#[test]
fn registry_concurrent_isolation_via_uuids() {
    let mut reg = BuildRegistry::new();
    let a = Arc::new(new_session("/tmp/a", anthropic_session()));
    let b = Arc::new(new_session("/tmp/b", anthropic_session()));
    reg.insert(key_of(&a), Arc::clone(&a));
    reg.insert(key_of(&b), Arc::clone(&b));
    reg.remove(key_of(&a));
    let got = reg.get(key_of(&b)).expect("B stays registered");
    assert_eq!(got.cwd, "/tmp/b", "B must be independent of A");
    assert!(reg.get(key_of(&a)).is_none());
}

#[test]
fn build_argv_native_is_empty() {
    let sess = new_session(
        "/tmp",
        AgentSession::LightarchitectsNative(LightarchitectsNativeConfig { binary: "la".into(), model: None }),
    );
    assert!(sess.build_argv().is_empty());
}

#[test]
fn identity_prompt_uses_the_vault_text_when_read() {
    let with = copilot_identity(Some("body".into()), "Vendor");
    assert!(with.starts_with("You ARE EVA."));
    assert!(with.ends_with("\n\nbody"));
    assert!(with.contains("Never say 'I'm Vendor'"));
    let without = copilot_identity(None, "Vendor");
    assert!(without.starts_with("Your name is EVA. You ARE EVA — not Vendor, not an assistant."));
}
