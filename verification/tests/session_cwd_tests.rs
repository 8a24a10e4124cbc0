use lightarchitects_webshell::session_cwd::{first_cwd, session_file_name};

fn lines(v: &[&str]) -> Vec<String> {
    v.iter().map(|s| s.to_string()).collect()
}

#[test]
fn read_cwd_handles_empty_file() {
    assert_eq!(first_cwd(&vec![]), None);
}

#[test]
fn read_cwd_returns_first_cwd_seen() {
    let l = lines(&[
        r#"{"type":"custom-title","customTitle":"x"}"#,
        r#"{"type":"attachment","cwd":"/Users/kft/Projects"}"#,
        r#"{"type":"attachment","cwd":"/other/path"}"#,
    ]);
    assert_eq!(first_cwd(&l), Some("/Users/kft/Projects".to_string()));
}

#[test]
fn read_cwd_ignores_malformed_lines_until_finding_valid_one() {
    let l = lines(&["not json", "{", "   ", r#"  {"cwd":"/tmp/session"}  "#]);
    assert_eq!(first_cwd(&l), Some("/tmp/session".to_string()));
}

#[test]
fn read_cwd_looks_at_fifty_lines_only() {
    let mut l = vec!["{}".to_string(); 50];
    l.push(r#"{"cwd":"/late"}"#.to_string());
    assert_eq!(first_cwd(&l), None);
    let l2 = lines(&[r#"{"cwd":""}"#, r#"{"cwd":7}"#, r#"{"cwd":"/ok"}"#]);
    assert_eq!(first_cwd(&l2), Some("/ok".to_string()));
}

#[test]
fn derive_rejects_traversal_session_id() {
    assert_eq!(session_file_name("../../../etc/passwd"), None);
    assert_eq!(session_file_name(""), None);
    assert_eq!(
        session_file_name("9a8b7c6d-1234-5678-abcd-ef0123456789"),
        Some("9a8b7c6d-1234-5678-abcd-ef0123456789.jsonl".to_string())
    );
}
