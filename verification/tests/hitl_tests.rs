use lightarchitects_webshell::hitl::{
    list_awaiting, resolve_action, resolve_task, QueueTask, ResolveError, ResolveRequest,
    ResolveResponse,
};

fn task(id: &str, status: &str) -> QueueTask {
    QueueTask {
        id: id.to_string(),
        title: format!("title {id}"),
        project: "proj".to_string(),
        status: status.to_string(),
        build_codename: Some("wave".to_string()),
        awaiting_assertion_id: Some("A-1".to_string()),
        resolution_deadline: Some("2026-01-01T00:00:00Z".to_string()),
        priority: "high".to_string(),
        added: None,
    }
}

fn request_from_json(body: &str) -> ResolveRequest {
    let v: serde_json::Value = serde_json::from_str(body).unwrap();
    ResolveRequest { action: v["action"].as_str().unwrap().to_string() }
}

#[test]
fn resolve_request_deserializes_approve() {
    let r = request_from_json(r#"{"action":"approve"}"#);
    assert_eq!(r.action, "approve");
    assert_eq!(resolve_action(&r.action), Some("pending"));
}

#[test]
fn resolve_request_deserializes_reject() {
    let r = request_from_json(r#"{"action":"reject"}"#);
    assert_eq!(r.action, "reject");
    assert_eq!(resolve_action(&r.action), Some("failed"));
}

#[test]
fn only_awaiting_tasks_are_listed_in_order() {
    let tasks = vec![
        task("a", "awaiting_operator_resolution"),
        task("b", "pending"),
        task("c", "awaiting_operator_resolution"),
    ];
    let listed = list_awaiting(&tasks);
    assert_eq!(listed.len(), 2);
    assert_eq!(listed[0].id, "a");
    assert_eq!(listed[1].id, "c");
    assert_eq!(listed[1].awaiting_assertion_id.as_deref(), Some("A-1"));
}

#[test]
fn approve_requeues_and_clears_the_assertion() {
    let mut tasks = vec![task("a", "pending"), task("b", "awaiting_operator_resolution")];
    let r = resolve_task(&mut tasks, "b", "approve");
    assert_eq!(r, Ok(ResolveResponse { ok: true, new_status: "pending".to_string() }));
    assert_eq!(tasks[1].status, "pending");
    assert_eq!(tasks[1].awaiting_assertion_id, None);
    assert_eq!(tasks[1].resolution_deadline, None);
    assert_eq!(tasks[0].awaiting_assertion_id.as_deref(), Some("A-1"));
}

#[test]
fn reject_fails_the_task() {
    let mut tasks = vec![task("b", "awaiting_operator_resolution")];
    assert_eq!(
        resolve_task(&mut tasks, "b", "reject"),
        Ok(ResolveResponse { ok: true, new_status: "failed".to_string() })
    );
    assert_eq!(tasks[0].status, "failed");
}

#[test]
fn refusals_leave_the_queue_alone() {
    let mut tasks = vec![task("a", "pending"), task("b", "awaiting_operator_resolution")];
    assert_eq!(resolve_task(&mut tasks, "b", "maybe"), Err(ResolveError::BadAction));
    assert_eq!(resolve_task(&mut tasks, "zz", "approve"), Err(ResolveError::NotFound));
    assert_eq!(resolve_task(&mut tasks, "a", "approve"), Err(ResolveError::NotAwaiting));
    assert_eq!(tasks[1].status, "awaiting_operator_resolution");
    assert_eq!(tasks[0].status, "pending");
}
