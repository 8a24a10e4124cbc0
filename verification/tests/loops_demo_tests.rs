use lightarchitects_webshell::loops_demo::{
    demo_frame, demo_request, is_known_strategy, provider_error_frame, stream_complete_frame,
    unknown_strategy_frame, StepOutcome,
};

#[test]
fn seventeen_strategies_are_known() {
    let names = [
        "gate", "scope_governor", "build", "secure", "scrum", "enrich", "react", "bcra", "multipass",
        "drain", "critique_refine", "reflexion", "cove", "red_team", "ach", "itt", "ensemble",
    ];
    assert!(names.iter().all(|n| is_known_strategy(n)));
    assert!(!is_known_strategy("nope"));
}

#[test]
fn requests_default_to_the_gate_strategy() {
    assert_eq!(demo_request(None, None), ("gate".into(), "what is the capital of France?".into()));
    assert_eq!(demo_request(Some("cove".into()), Some("q".into())), ("cove".into(), "q".into()));
}

#[test]
fn steps_become_frames() {
    let (f, stop) = demo_frame(StepOutcome::Progress(2, "phase 1 in progress".into()));
    assert_eq!((f.kind, f.turn, f.text.as_str(), stop), ("step", Some(2), "phase 1 in progress", false));
    let (f, stop) = demo_frame(StepOutcome::Halted("done it".into()));
    assert_eq!((f.kind, f.text.as_str(), stop), ("done", "done it", true));
    let (f, stop) = demo_frame(StepOutcome::Paused(false));
    assert_eq!((f.kind, f.text.as_str(), stop), ("done", "paused", true));
    let (f, stop) = demo_frame(StepOutcome::Paused(true));
    assert_eq!((f.kind, f.text.as_str(), stop), ("done", "paused — HITL required", true));
    let (f, stop) = demo_frame(StepOutcome::Failed("boom".into()));
    assert_eq!((f.kind, f.text.as_str(), stop), ("error", "boom", true));
    assert_eq!(stream_complete_frame().text, "stream complete");
    assert_eq!(unknown_strategy_frame("x").text, "unknown strategy: x");
    assert_eq!(provider_error_frame("e").text, "LiteLLM provider construction failed: e");
}
