use lightarchitects_webshell::config::{AgentSession, ClaudeBackend, MistralVibeConfig};
use lightarchitects_webshell::fork::{fork_plan, ForkRefusal};
use lightarchitects_webshell::fork::{is_safe_fork_cwd, is_safe_fork_session_id, is_safe_session_id};

#[test]
fn session_id_allowlist_accepts_uuid() {
    assert!(is_safe_fork_session_id("9a8b7c6d-5e4f-3a2b-1c0d-e9f8a7b6c5d4"));
}

#[test]
fn session_id_allowlist_rejects_dollar() {
    assert!(!is_safe_fork_session_id("$(rm -rf ~)"));
}

#[test]
fn session_id_allowlist_rejects_backtick() {
    assert!(!is_safe_fork_session_id("`id`"));
}

#[test]
fn session_id_allowlist_rejects_overlong() {
    assert!(!is_safe_fork_session_id(&"a".repeat(37)));
}

#[test]
fn cwd_allowlist_accepts_normal_path() {
    assert!(is_safe_fork_cwd("/Users/kft/Projects/my-project"));
}

#[test]
fn cwd_allowlist_rejects_semicolon() {
    assert!(!is_safe_fork_cwd("/tmp; rm -rf ~"));
}

#[test]
fn cwd_allowlist_rejects_pipe() {
    assert!(!is_safe_fork_cwd("/tmp | cat /etc/passwd"));
}

#[test]
fn cwd_allowlist_rejects_dollar() {
    assert!(!is_safe_fork_cwd("/tmp/$HOME"));
}

#[test]
fn cwd_allowlist_rejects_overlong() {
    assert!(!is_safe_fork_cwd(&"/a".repeat(257)));
}

#[test]
fn is_safe_session_id_accepts_valid_uuid() {
    assert!(is_safe_session_id("9a8b7c6d-1234-5678-abcd-ef0123456789"));
}

#[test]
fn is_safe_session_id_rejects_path_traversal() {
    assert!(!is_safe_session_id("../../../etc/passwd"));
}

#[test]
fn is_safe_session_id_rejects_newline() {
    assert!(!is_safe_session_id("abc\ndef"));
}

#[test]
fn is_safe_session_id_rejects_null_byte() {
    assert!(!is_safe_session_id("abc\0def"));
}

#[test]
fn is_safe_session_id_rejects_empty() {
    assert!(!is_safe_session_id(""));
}

#[test]
fn is_safe_session_id_rejects_overlong() {
    let long = "a".repeat(37);
    assert!(!is_safe_session_id(&long));
}

#[test]
fn fork_plan_checks_in_order() {
    let a = AgentSession::Lightarchitects(ClaudeBackend::Anthropic);
    let id = "9a8b7c6d-1234-5678-abcd-ef0123456789";
    assert_eq!(fork_plan(false, Some(id), "/w", &a, "agent"), Err(ForkRefusal::BuildNotFound));
    assert_eq!(fork_plan(true, None, "/w", &a, "agent"), Err(ForkRefusal::NoSessionYet));
    assert_eq!(fork_plan(true, Some("x;rm"), "/w", &a, "agent"), Err(ForkRefusal::InvalidSessionId));
    assert_eq!(fork_plan(true, Some(id), "/w;rm", &a, "agent"), Err(ForkRefusal::InvalidCwd));
    assert_eq!(
        fork_plan(true, Some(id), "/w", &a, "agent"),
        Ok(("lightarchitects", format!("cd /w && agent --resume {id}")))
    );
    let v = AgentSession::MistralVibe(MistralVibeConfig { model: None });
    assert_eq!(fork_plan(true, Some(id), "/w", &v, "agent"), Err(ForkRefusal::UnsupportedAgent));
}
