use lightarchitects_webshell::program::{
    cancel_due, first_n_joined, is_valid_codename, manifest_answer, payload_summary, ManifestRead, plan_build_spec_to_program, program_status,
    set_cancelled, start_program, task_id, validate_codenames, PlanBuildSpec, ProgramState,
    StartError, StartProgramRequest, MAX_CODENAME_LEN, MAX_CODENAMES,
};
use lightarchitects_webshell::sequencer::{after_build, next_step, SequencerState, SequencerStep};

#[test]
fn valid_codenames_pass() {
    assert!(is_valid_codename("my-build"));
    assert!(is_valid_codename("Build123"));
    assert!(is_valid_codename("a"));
    assert!(is_valid_codename(&"x".repeat(MAX_CODENAME_LEN)));
}

#[test]
fn invalid_codenames_fail() {
    assert!(!is_valid_codename(""));
    assert!(!is_valid_codename("has space"));
    assert!(!is_valid_codename("../../etc"));
    assert!(!is_valid_codename("has/slash"));
    assert!(!is_valid_codename("has.dot"));
    assert!(!is_valid_codename(&"x".repeat(MAX_CODENAME_LEN + 1)));
}

fn names(v: &[&str]) -> Vec<String> {
    v.iter().map(|s| s.to_string()).collect()
}

#[test]
fn start_rejects_empty_codenames() {
    assert_eq!(validate_codenames(&Vec::new()), Err("codenames must not be empty".to_string()));
}

#[test]
fn start_rejects_too_many_codenames() {
    let codenames: Vec<String> = (0..=MAX_CODENAMES).map(|i| format!("build-{i}")).collect();
    assert_eq!(validate_codenames(&codenames), Err("at most 10 codenames per program".to_string()));
}

#[test]
fn start_rejects_codename_with_slash() {
    assert_eq!(
        validate_codenames(&names(&["ok", "../../etc/passwd", "bad name"])),
        Err("invalid codename '../../etc/passwd': only [a-zA-Z0-9-] allowed, max 50 chars".to_string())
    );
}

#[test]
fn start_then_status_shows_running() {
    let mut slot = None;
    let r = start_program(
        &mut slot,
        StartProgramRequest { codenames: names(&["my-build", "next"]), auto_mode: false },
        "id-1".to_string(),
    );
    assert_eq!(r, Ok(()));
    let st = program_status(&slot).unwrap();
    assert_eq!(st.state, ProgramState::Running);
    assert_eq!(st.current.as_deref(), Some("my-build"));
    assert!(cancel_due(&slot));
}

#[test]
fn start_conflict_when_already_running() {
    let mut slot = None;
    let first = StartProgramRequest { codenames: names(&["first-build"]), auto_mode: false };
    assert_eq!(start_program(&mut slot, first, "a".into()), Ok(()));
    let second = StartProgramRequest { codenames: names(&["second-build"]), auto_mode: true };
    assert_eq!(start_program(&mut slot, second, "b".into()), Err(StartError::Conflict));
    assert_eq!(slot.as_ref().unwrap().id, "a");
    set_cancelled(&mut slot);
    assert!(!cancel_due(&slot));
    let third = StartProgramRequest { codenames: names(&["third"]), auto_mode: true };
    assert_eq!(start_program(&mut slot, third, "c".into()), Ok(()));
}

#[test]
fn status_is_absent_when_idle() {
    assert!(program_status(&None).is_none());
    assert!(!cancel_due(&None));
}

#[test]
fn plan_specs_number_waves_and_tasks_from_one() {
    let spec = PlanBuildSpec {
        codename: "cn".into(),
        waves: vec![vec!["p1".into(), "p2".into()], vec![], vec!["p3".into()]],
    };
    let out = plan_build_spec_to_program(spec);
    assert_eq!(out.waves.len(), 3);
    assert_eq!(out.waves[0][1].id, "cn-wave1-task2");
    assert_eq!(out.waves[0][1].prompt, "p2");
    assert!(out.waves[1].is_empty());
    assert_eq!(out.waves[2][0].id, "cn-wave3-task1");
    assert_eq!(task_id("x", 12, 30), "x-wave12-task30");
}

#[test]
fn payload_summary_keeps_short_text_and_cuts_long_text() {
    assert_eq!(payload_summary("short"), "short");
    let long = "é".repeat(250);
    assert_eq!(payload_summary(&long).chars().count(), 200);
}

#[test]
fn state_display_labels_are_correct() {
    assert_eq!(SequencerState::Idle.to_string(), "idle");
    assert_eq!(SequencerState::Running { current: 2, total: 5 }.to_string(), "running (2/5)");
    assert_eq!(SequencerState::Completed.to_string(), "completed");
    assert_eq!(SequencerState::Cancelled.to_string(), "cancelled");
}

#[test]
fn cancellation_before_second_build() {
    assert_eq!(next_step(0, 2, false), SequencerStep::Dispatch(0));
    assert_eq!(after_build(0, Ok(())), Ok(1));
    assert_eq!(next_step(1, 2, true), SequencerStep::Stop(Err("cancelled".to_string())));
    assert_eq!(next_step(2, 2, true), SequencerStep::Stop(Ok(())));
    assert_eq!(after_build(1, Err("boom".into())), Err("boom".to_string()));
}

fn drive(total: usize, failing: Option<usize>) -> (Vec<String>, Result<(), String>) {
    let mut log = Vec::new();
    let mut idx = 0usize;
    loop {
        match next_step(idx, total, false) {
            SequencerStep::Stop(r) => return (log, r),
            SequencerStep::Dispatch(i) => {
                log.push(format!("start:{i}"));
                let result = if failing == Some(i) { Err(format!("build {i} failed")) } else { Ok(()) };
                log.push(format!("end:{i}"));
                match after_build(i, result) {
                    Ok(next) => idx = next,
                    Err(e) => return (log, Err(e)),
                }
            }
        }
    }
}

#[test]
fn successful_run_dispatches_each_build_in_order() {
    let (log, r) = drive(3, None);
    assert_eq!(log, vec!["start:0", "end:0", "start:1", "end:1", "start:2", "end:2"]);
    assert_eq!(r, Ok(()));
}

#[test]
fn run_stops_at_the_first_failing_build() {
    let (log, r) = drive(3, Some(1));
    assert_eq!(log, vec!["start:0", "end:0", "start:1", "end:1"]);
    assert_eq!(r, Err("build 1 failed".to_string()));
}

#[test]
fn status_returns_404_when_idle() {
    // No program was started: the status route has nothing to report.
    assert!(program_status(&None).is_none());
}

#[test]
fn start_rejects_codename_too_long() {
    let long: String = "a".repeat(MAX_CODENAME_LEN + 1);
    let mut slot = None;
    let r = start_program(&mut slot, StartProgramRequest { codenames: vec![long], auto_mode: false }, "x".into());
    assert!(matches!(r, Err(StartError::BadRequest(_))));
    assert!(slot.is_none());
}

#[test]
fn start_rejects_codename_with_spaces() {
    let mut slot = None;
    let r = start_program(
        &mut slot,
        StartProgramRequest { codenames: names(&["bad name"]), auto_mode: false },
        "x".into(),
    );
    assert!(matches!(r, Err(StartError::BadRequest(_))));
    assert!(slot.is_none());
}

#[test]
fn start_returns_202_with_id() {
    let mut slot = None;
    let r = start_program(
        &mut slot,
        StartProgramRequest { codenames: names(&["webshell-a2a-supervisor-visibility"]), auto_mode: false },
        "0b9a7c1e-2f4d-4c1a-9e0b-5d6f7a8b9c0d".into(),
    );
    assert_eq!(r, Ok(()));
    assert_eq!(program_status(&slot).unwrap().id.as_deref(), Some("0b9a7c1e-2f4d-4c1a-9e0b-5d6f7a8b9c0d"));
}

#[test]
fn cancel_returns_204_when_nothing_running() {
    // Nothing runs: no cancellation is signalled, and marking cancelled is harmless.
    let mut slot = None;
    assert!(!cancel_due(&slot));
    set_cancelled(&mut slot);
    assert!(slot.is_none());
}

#[test]
fn cancel_after_start_returns_204() {
    let mut slot = None;
    let req = StartProgramRequest { codenames: names(&["my-build"]), auto_mode: false };
    assert_eq!(start_program(&mut slot, req, "id".into()), Ok(()));
    assert!(cancel_due(&slot));
    set_cancelled(&mut slot);
    assert_eq!(program_status(&slot).unwrap().state, ProgramState::Cancelled);
}

#[test]
fn manifest_parses_yaml_into_json() {
    let (status, body) = manifest_answer(ManifestRead::Text("program: alpha\nbuilds:\n  - one\n  - two\n".into()));
    assert_eq!(status, 200);
    let v: serde_json::Value = serde_json::from_str(&body).unwrap();
    assert_eq!(v["program"], "alpha");
    assert_eq!(v["builds"][1], "two");
}

#[test]
fn manifest_answers_each_failure() {
    assert_eq!(
        manifest_answer(ManifestRead::Text("a: [unclosed".into())),
        (500, "program manifest parse error".to_string())
    );
    assert_eq!(manifest_answer(ManifestRead::NotFound), (404, "program_manifest.yaml not found".to_string()));
    assert_eq!(manifest_answer(ManifestRead::Failed), (500, "program manifest read error".to_string()));
}

#[test]
fn first_n_joined_takes_whole_clusters() {
    let c = vec!["a".to_string(), "e\u{301}".to_string(), "b".to_string()];
    assert_eq!(first_n_joined(&c, 2), "ae\u{301}");
    assert_eq!(first_n_joined(&c, 9), "ae\u{301}b");
    assert_eq!(first_n_joined(&c, 0), "");
}
