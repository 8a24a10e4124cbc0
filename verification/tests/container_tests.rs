use lightarchitects_webshell::container::reap_candidates;
use lightarchitects_webshell::container::{
    is_valid_container_id, relay_precheck, relay_step, RelayAction, RelayInput, RelayRefusal,
};

fn matches(s: &str) -> bool {
    is_valid_container_id(s)
}

#[test]
fn accepts_full_sha() {
    assert!(matches(&"a".repeat(64)));
}

#[test]
fn accepts_short_id() {
    assert!(matches("abc123def456"));
}

#[test]
fn rejects_uppercase() {
    assert!(!matches("ABC123DEF456"));
}

#[test]
fn rejects_non_hex() {
    assert!(!matches("la-my-container"));
}

#[test]
fn rejects_too_short() {
    assert!(!matches("abc1234"));
}

#[test]
fn rejects_too_long() {
    assert!(!matches(&"a".repeat(65)));
}

#[test]
fn id_is_checked_before_the_credential() {
    assert_eq!(relay_precheck("NOT-AN-ID", false), Err(RelayRefusal::BadId));
    assert_eq!(relay_precheck("abc123def456", false), Err(RelayRefusal::Unauthorized));
    assert_eq!(relay_precheck("abc123def456", true), Ok(()));
}

#[test]
fn relay_forwards_data_and_stops_on_close() {
    assert_eq!(relay_step(RelayInput::Binary(vec![1, 2])), RelayAction::Write(vec![1, 2]));
    assert_eq!(relay_step(RelayInput::Text("ls\n".to_string())), RelayAction::Write(b"ls\n".to_vec()));
    assert_eq!(relay_step(RelayInput::Text("é".to_string())), RelayAction::Write(vec![0xc3, 0xa9]));
    assert_eq!(relay_step(RelayInput::Control), RelayAction::Skip);
    assert_eq!(relay_step(RelayInput::Close), RelayAction::Stop);
    assert_eq!(relay_step(RelayInput::End), RelayAction::Stop);
    assert_eq!(relay_step(RelayInput::ShellDone), RelayAction::Stop);
    assert_eq!(relay_step(RelayInput::Error), RelayAction::Stop);
}

#[test]
fn reaper_evicts_old_containers_no_longer_running() {
    let secs = |s: u128| s * 1_000_000_000;
    let watched = vec![
        ("a".to_string(), secs(20)),
        ("b".to_string(), secs(5)),
        ("c".to_string(), secs(15)),
        ("d".to_string(), secs(30)),
    ];
    let running = vec!["d".to_string()];
    assert_eq!(reap_candidates(&watched, &running), vec!["a".to_string(), "c".to_string()]);
    assert!(reap_candidates(&vec![], &running).is_empty());
}
