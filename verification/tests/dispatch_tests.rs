use lightarchitects_webshell::northstar::Signals;
use lightarchitects_webshell::squad::{
    classify, correlate, on_event, sibling_and_kind, static_topic, EventMemo, A2A_CORRELATION_MS,
};
use lightarchitects_webshell::wave::{compose, rank_and_cap, Suggestion, MAX_SUGGESTIONS};

fn empty_signals() -> Signals {
    Signals { active_builds: 0, supervisors: 0, drift_total: 0, soul_present: false, hitl_open: 0 }
}

#[test]
fn empty_platform_returns_minimum_suggestions() {
    let out = compose(&empty_signals());
    assert!(out.iter().any(|x| x.action == "/BUILD"));
    assert!(out.iter().any(|x| x.action == "/OBSERVE"));
    assert_eq!(out.len(), 2);
}

#[test]
fn drift_elevates_optimize_to_priority() {
    let sigs = Signals { drift_total: 3, ..empty_signals() };
    let suggestions = compose(&sigs);
    let pick = suggestions.iter().find(|x| x.action == "/OPTIMIZE").unwrap();
    assert!(pick.priority);
    assert_eq!(
        pick.reason,
        "3 consecutive drift wave(s) across supervisors — review against northstar"
    );
}

#[test]
fn priority_orders_first() {
    let s = Signals { drift_total: 1, active_builds: 1, ..empty_signals() };
    let out = compose(&s);
    assert!(out.first().unwrap().priority, "first item must be priority");
    let actions: Vec<&str> = out.iter().map(|x| x.action).collect();
    assert_eq!(actions, vec!["/OPTIMIZE", "/OBSERVE", "/SECURE"]);
}

#[test]
fn dedupes_by_action() {
    let input = vec![
        Suggestion { action: "/X", reason: "a".to_owned(), domain: "A", priority: true },
        Suggestion { action: "/X", reason: "b".to_owned(), domain: "A", priority: false },
    ];
    let out = rank_and_cap(input);
    assert_eq!(out.len(), 1);
    assert!(out[0].priority, "priority instance must win");
}

#[test]
fn dedup_keeps_elevated_copy_even_when_it_comes_later() {
    let input = vec![
        Suggestion { action: "/X", reason: "low".to_owned(), domain: "A", priority: false },
        Suggestion { action: "/Y", reason: "y".to_owned(), domain: "A", priority: false },
        Suggestion { action: "/X", reason: "high".to_owned(), domain: "A", priority: true },
    ];
    let out = rank_and_cap(input);
    assert_eq!(out.len(), 2);
    assert_eq!(out[0].reason, "high");
    assert_eq!(out[1].action, "/Y");
}

#[test]
fn caps_at_max() {
    let many: Vec<Suggestion> = (0..20)
        .map(|_| Suggestion { action: "/A", reason: String::new(), domain: "A", priority: false })
        .collect();
    let labels: [&'static str; 8] = ["/A", "/B", "/C", "/D", "/E", "/F", "/G", "/H"];
    let many2: Vec<Suggestion> = labels
        .iter()
        .map(|a| Suggestion { action: a, reason: String::new(), domain: "A", priority: false })
        .collect();
    assert!(rank_and_cap(many).len() <= MAX_SUGGESTIONS);
    let capped = rank_and_cap(many2);
    assert_eq!(capped.len(), MAX_SUGGESTIONS);
    assert_eq!(capped[5].action, "/F");
}

fn memo(sibling: &'static str, build: Option<&str>, kind: &'static str, ts_ms: u64) -> EventMemo {
    EventMemo { sibling, build_id: build.map(std::borrow::ToOwned::to_owned), kind, ts_ms }
}

#[test]
fn correlation_links_two_siblings_in_window() {
    let prev = memo("SOUL", Some("b1"), "enrich", 1_000);
    let curr = memo("CORSO", Some("b1"), "context", 3_000);
    let link = correlate(Some(&prev), &curr).expect("link expected");
    assert_eq!(link.from, "SOUL");
    assert_eq!(link.to, "CORSO");
    assert_eq!(link.kind, "context");
    assert_eq!(link.build_id.as_deref(), Some("b1"));
}

#[test]
fn correlation_rejects_same_sibling() {
    let prev = memo("SOUL", Some("b1"), "enrich", 1_000);
    let curr = memo("SOUL", Some("b1"), "enrich", 2_000);
    assert!(correlate(Some(&prev), &curr).is_none());
}

#[test]
fn correlation_rejects_window_breach() {
    let prev = memo("SOUL", Some("b1"), "enrich", 1_000);
    let curr = memo("CORSO", Some("b1"), "context", 1_000 + A2A_CORRELATION_MS + 1);
    assert!(correlate(Some(&prev), &curr).is_none());
    let at_edge = memo("CORSO", Some("b1"), "context", 1_000 + A2A_CORRELATION_MS);
    assert!(correlate(Some(&prev), &at_edge).is_some());
}

#[test]
fn correlation_rejects_mismatched_builds() {
    let prev = memo("SOUL", Some("b1"), "enrich", 1_000);
    let curr = memo("CORSO", Some("b2"), "context", 2_000);
    assert!(correlate(Some(&prev), &curr).is_none());
    assert!(correlate(None, &curr).is_none());
}

#[test]
fn static_topic_only_returns_known() {
    assert!(static_topic("v1.build.update").is_some());
    assert!(static_topic("v1.nonexistent.xx").is_none());
}

#[test]
fn sibling_and_kind_handles_all_known_topics() {
    let topics = [
        "v1.build.update",
        "v1.conductor.escalation",
        "v1.helix.entry.changed",
        "v1.agent.ayin.connected",
    ];
    for t in topics {
        let st = static_topic(t).expect("static topic");
        assert!(sibling_and_kind(st).is_some(), "topic {t} unmapped");
    }
    assert_eq!(sibling_and_kind("v1.conductor.tick"), Some(("CORSO", "dispatch")));
}

#[test]
fn stream_step_remembers_attributed_events() {
    let mut last: Option<EventMemo> = None;
    let first = classify("v1.helix.entry.promoted", Some("b9".into()), 10);
    assert!(on_event(&mut last, first).is_none());
    assert_eq!(last.as_ref().unwrap().sibling, "SOUL");
    assert!(on_event(&mut last, classify("v1.unknown", None, 11)).is_none());
    assert_eq!(last.as_ref().unwrap().ts_ms, 10);
    let link = on_event(&mut last, classify("v1.worktree.update", Some("b9".into()), 20)).unwrap();
    assert_eq!((link.from, link.to, link.kind), ("SOUL", "CORSO", "context"));
}

#[test]
fn open_hitl_items_elevate_review() {
    let s = Signals { hitl_open: 2, active_builds: 1, ..empty_signals() };
    let out = compose(&s);
    let actions: Vec<&str> = out.iter().map(|x| x.action).collect();
    assert_eq!(actions, vec!["/REVIEW", "/OBSERVE", "/SECURE"]);
    assert!(out[0].priority);
    assert_eq!(out[0].domain, "S");
    assert_eq!(out[0].reason, "2 HITL item(s) awaiting review");
}
