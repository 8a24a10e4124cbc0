use lightarchitects_webshell::program::ProgramState;
use lightarchitects_webshell::program_run::{
    EnvelopeKind, PlanFailure, ProgramAction, ProgramDriver, ProgramEvent, RunStage,
};

fn emitted(acts: &[ProgramAction]) -> Vec<(String, u32, EnvelopeKind, String)> {
    acts.iter()
        .filter_map(|a| match a {
            ProgramAction::Emit(e) => Some((e.task_id.clone(), e.wave, e.kind, e.summary.clone())),
            _ => None,
        })
        .collect()
}

#[test]
fn auto_run_dispatches_every_task_then_completes() {
    let mut d = ProgramDriver::new(vec!["alpha".into()], true);
    let a = d.step(ProgramEvent::Proceed, false);
    assert_eq!(a, vec![ProgramAction::SetCurrent(0), ProgramAction::ReadPlan("alpha".into())]);
    let plan = vec![vec!["write code".to_string(), "test it".to_string()]];
    assert!(d.step(ProgramEvent::PlanRead(Ok(plan)), false).is_empty());
    assert!(d.step(ProgramEvent::Proceed, false).is_empty());
    let mut all = Vec::new();
    loop {
        let acts = d.step(ProgramEvent::Proceed, false);
        let paused = acts.contains(&ProgramAction::Pause);
        all.extend(emitted(&acts));
        if paused {
            all.extend(emitted(&d.step(ProgramEvent::PauseEnded(false), false)));
        }
        if d.stage == RunStage::NextCodename || d.stage == RunStage::Done {
            break;
        }
    }
    assert_eq!(
        all,
        vec![
            ("alpha-wave1-task1".into(), 1, EnvelopeKind::TaskStart, "write code".into()),
            ("alpha-wave1-task1".into(), 1, EnvelopeKind::TaskComplete, "task 1 dispatched".into()),
            ("alpha-wave1-task2".into(), 1, EnvelopeKind::TaskStart, "test it".into()),
            ("alpha-wave1-task2".into(), 1, EnvelopeKind::TaskComplete, "task 2 dispatched".into()),
            ("alpha-wave1".into(), 1, EnvelopeKind::WaveComplete, "wave 1 complete (2 tasks)".into()),
        ]
    );
    assert_eq!(d.step(ProgramEvent::Proceed, false), vec![ProgramAction::Finish(ProgramState::Completed)]);
}

#[test]
fn gated_wave_refused_cancels_the_run() {
    let mut d = ProgramDriver::new(vec!["beta".into()], false);
    d.step(ProgramEvent::Proceed, false);
    d.step(ProgramEvent::PlanRead(Ok(vec![vec!["t".into()]])), false);
    let a = d.step(ProgramEvent::Proceed, false);
    match &a[..] {
        [ProgramAction::ParkGate(g)] => {
            assert_eq!(g.task_id, "beta-wave1-gate");
            assert_eq!(g.prompt, "Approve wave 1 of 'beta'?");
            assert_eq!(g.question, "Approve dispatch of wave 1 (1 tasks) for build 'beta'?");
            assert_eq!(g.wave_index, 0);
        }
        other => panic!("expected a gate, got {other:?}"),
    }
    let a = d.step(ProgramEvent::GateDecided(false), false);
    assert_eq!(
        emitted(&a),
        vec![("beta-wave1-gate".into(), 1, EnvelopeKind::TaskEscalated, "wave rejected or run cancelled".into())]
    );
    assert_eq!(a.last(), Some(&ProgramAction::Finish(ProgramState::Cancelled)));
    assert!(d.step(ProgramEvent::Proceed, false).is_empty());
}

#[test]
fn missing_plan_escalates_and_cancels() {
    let mut d = ProgramDriver::new(vec!["gamma".into()], true);
    d.step(ProgramEvent::Proceed, false);
    let a = d.step(ProgramEvent::PlanRead(Err(PlanFailure::Unavailable)), false);
    assert_eq!(
        emitted(&a),
        vec![("gamma-wave0-task0".into(), 0, EnvelopeKind::TaskEscalated, "plan file unavailable".into())]
    );
    assert_eq!(d.stage, RunStage::Done);
}

#[test]
fn cancellation_stops_before_the_next_codename() {
    let mut d = ProgramDriver::new(vec!["a".into(), "b".into()], true);
    let a = d.step(ProgramEvent::Proceed, true);
    assert_eq!(a, vec![ProgramAction::SetCurrent(0), ProgramAction::Finish(ProgramState::Cancelled)]);
}

#[test]
fn a_cut_pause_escalates_the_task() {
    let mut d = ProgramDriver::new(vec!["d".into()], true);
    d.step(ProgramEvent::Proceed, false);
    d.step(ProgramEvent::PlanRead(Ok(vec![vec!["t".into()]])), false);
    d.step(ProgramEvent::Proceed, false);
    d.step(ProgramEvent::Proceed, false);
    let a = d.step(ProgramEvent::PauseEnded(true), false);
    assert_eq!(emitted(&a), vec![("d-wave1-task1".into(), 1, EnvelopeKind::TaskEscalated, "task cancelled".into())]);
    assert_eq!(a.last(), Some(&ProgramAction::Finish(ProgramState::Cancelled)));
}
