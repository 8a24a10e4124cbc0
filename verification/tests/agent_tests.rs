use lightarchitects_webshell::config::{AgentKind, AgentSession, ClaudeBackend, CodexBackend};
use lightarchitects_webshell::fork::{applescript_for, resume_command};
use lightarchitects_webshell::pty::{
    begin_respawn, child_args, continuity_mode, finish_respawn, resolve_host_cmd, resume_id_for,
    validate_model, verify_credential_for, PtyState,
};
use lightarchitects_webshell::pty::{respawn_precheck, RespawnRefusal, RespawnRequest};
use lightarchitects_webshell::setup::{
    agent_session_from_save, cli_config_with_model, cli_model_from_config, codex_model_from_config, codex_models, format_source,
    lightarchitects_models, login_method_from, model_option, model_source, native_model_rejected,
    openrouter_models, setup_config_from, CredentialLocator, ModelSource, ModelsQuery, SaveRequest,
};

#[test]
fn same_agent_is_resumed() {
    assert_eq!(continuity_mode(AgentKind::Lightarchitects, AgentKind::Lightarchitects), "resumed");
}

#[test]
fn cross_agent_is_clean_slate() {
    assert_eq!(continuity_mode(AgentKind::Lightarchitects, AgentKind::MistralVibe), "clean_slate");
    assert_eq!(continuity_mode(AgentKind::Lightarchitects, AgentKind::Codex), "clean_slate");
}

#[test]
fn model_override_validation() {
    assert!(validate_model("gpt-4o"));
    assert!(validate_model("qwen3-coder_1.5"));
    assert!(!validate_model(""));
    assert!(!validate_model("--config"));
    assert!(!validate_model("a b"));
    assert!(!validate_model(&"m".repeat(101)));
    assert!(validate_model(&"m".repeat(100)));
}

#[test]
fn respawn_state_and_arguments() {
    let mut st = PtyState::default();
    assert!(begin_respawn(&mut st));
    assert!(!begin_respawn(&mut st));
    finish_respawn(&mut st, false);
    assert_eq!(st, PtyState::Failed);
    assert_eq!(resolve_host_cmd(AgentKind::Codex, "bash"), "codex");
    assert_eq!(resolve_host_cmd(AgentKind::Lightarchitects, "bash"), "bash");
    assert_eq!(verify_credential_for(AgentKind::MistralVibe, false, false), Err("mistral".to_string()));
    assert_eq!(verify_credential_for(AgentKind::Codex, false, true), Ok(()));
    let id = resume_id_for(AgentKind::Codex, AgentKind::Codex, Some("s1".into()));
    assert_eq!(child_args(Some("m".into()), id), vec!["--model", "m", "--resume", "s1"]);
    assert!(resume_id_for(AgentKind::Codex, AgentKind::MistralVibe, Some("s1".into())).is_none());
}

#[test]
fn fork_command_per_agent() {
    let cmd = resume_command(&AgentSession::Lightarchitects(ClaudeBackend::Anthropic), "agent", "/w", "ab-1");
    assert_eq!(cmd, Some(("lightarchitects", "cd /w && agent --resume ab-1".to_string())));
    let codex = AgentSession::Codex(lightarchitects_webshell::config::CodexConfig {
        model: "gpt-4o".into(),
        backend: CodexBackend::OpenAi,
    });
    assert_eq!(
        resume_command(&codex, "agent", "/w", "ab-1").unwrap().1,
        "cd /w && codex exec resume ab-1"
    );
    assert_eq!(applescript_for("a\"b\\c"), "tell application \"Terminal\" to do script \"a\\\"b\\\\c\"");
}

fn save_req(agent: AgentKind, backend: &str, model: Option<&str>) -> SaveRequest {
    SaveRequest {
        agent,
        backend: backend.to_owned(),
        model: model.map(ToOwned::to_owned),
        ollama_base_url: None,
        api_key: None,
    }
}

#[test]
fn agent_session_from_save_mistral_vibe_explicit_model() {
    let req = save_req(AgentKind::MistralVibe, "mistral", Some("mistral-small-latest"));
    let sess = agent_session_from_save(&req).unwrap();
    let AgentSession::MistralVibe(cfg) = sess else {
        panic!("expected MistralVibe session");
    };
    assert_eq!(cfg.model.as_deref(), Some("mistral-small-latest"));
}

#[test]
fn agent_session_from_save_mistral_vibe_model_defaults_when_absent() {
    let req = save_req(AgentKind::MistralVibe, "mistral", None);
    let sess = agent_session_from_save(&req).unwrap();
    let AgentSession::MistralVibe(cfg) = sess else {
        panic!("expected MistralVibe session");
    };
    assert_eq!(cfg.model, None);
}

#[test]
fn agent_session_from_save_defaults_and_unknown_backends() {
    let s = agent_session_from_save(&save_req(AgentKind::Codex, "ollama_launch", None)).unwrap();
    let AgentSession::Codex(c) = s else { panic!("expected codex") };
    assert_eq!(c.model, "gpt-4o");
    let CodexBackend::OllamaLaunch(o) = c.backend else { panic!("expected ollama") };
    assert_eq!(o.model, "qwen3-coder:480b-cloud");
    assert_eq!(o.base_url, "http://localhost:11434");
    assert!(agent_session_from_save(&save_req(AgentKind::Lightarchitects, "openai", None)).is_none());
    let mut req = save_req(AgentKind::LightarchitectsNative, "x", Some("  "));
    assert!(native_model_rejected(&req));
    req.api_key = Some("k".into());
    assert!(setup_config_from(&req).api_key_stored);
}

#[test]
fn codex_model_is_read_from_config() {
    let cfg = "# c\n  model = \"gpt-5\"\nmodel_provider = \"x\"\n";
    assert_eq!(codex_model_from_config(cfg).as_deref(), Some("gpt-5"));
    assert_eq!(codex_model_from_config("model_reasoning\nmodel = a\n"), None);
    assert_eq!(codex_model_from_config("x = 1\n"), None);
    let m = codex_models(Some("gpt-5".into()));
    assert_eq!(m[0].label, "gpt-5 (from ~/.codex/config.toml)");
    assert_eq!(codex_models(None)[0].id, "");
}

#[test]
fn catalogues_and_sources() {
    let fam = vec![model_option("m1", "M1", "fast")];
    let ms = lightarchitects_models(fam);
    assert_eq!(ms.len(), 4);
    assert_eq!(ms[0].id, "nemotron-3-super:120b-cloud");
    assert_eq!(ms[3].id, "m1");
    let or = openrouter_models(model_option("x/y", "Y", "balanced"));
    assert_eq!(or.len(), 5);
    assert_eq!(or[1].id, "x/y");
    let q = ModelsQuery { backend: "ollama".into(), base_url: None };
    assert_eq!(model_source(&q), ModelSource::Ollama("http://localhost:11434".into()));
    let q2 = ModelsQuery { backend: "nope".into(), base_url: None };
    assert_eq!(model_source(&q2), ModelSource::Unknown);
    let loc = CredentialLocator::Keychain { service: "svc".into() };
    assert_eq!(login_method_from(&loc), "keychain");
    assert_eq!(format_source(&loc), "macOS Keychain (svc)");
    assert_eq!(format_source(&CredentialLocator::Env { var: "K".into() }), "K env");
}

#[test]
fn missing_credential_returns_412() {
    let req = RespawnRequest { agent: AgentKind::Codex, model: None };
    let mut state = PtyState::Running;
    let r = respawn_precheck(&req, false, false, &mut state);
    assert_eq!(r, Err(RespawnRefusal::MissingCredential("openai".to_string())));
    assert_eq!(state, PtyState::Running, "nothing is touched before the credential check");
}

#[test]
fn cli_config_model_is_read_from_llm_table() {
    assert_eq!(cli_model_from_config(Some("[llm]\nmodel = \"m1\"\n")), Some("m1".to_string()));
    assert_eq!(cli_model_from_config(Some("model = \"top\"\n")), None);
    assert_eq!(cli_model_from_config(Some("[llm\n")), None);
    assert_eq!(cli_model_from_config(None), None);
}

#[test]
fn cli_config_model_is_written_under_llm() {
    let fresh = cli_config_with_model(None, "m2").expect("an empty config takes a model");
    assert_eq!(cli_model_from_config(Some(&fresh)), Some("m2".to_string()));
    let kept = cli_config_with_model(Some("[ui]\ntheme = \"dark\"\n[llm]\nmodel = \"old\"\n"), "new").unwrap();
    assert_eq!(cli_model_from_config(Some(&kept)), Some("new".to_string()));
    assert!(kept.contains("theme = \"dark\""));
    assert_eq!(cli_config_with_model(Some("[llm\n"), "x"), None);
}
