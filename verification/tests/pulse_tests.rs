use lightarchitects_webshell::mosaic::{
    derive_cells, derive_meta, gather_hitl_by_project, risk_rank, roll_up_risk, score_a, score_d,
    score_k, score_q, score_s, score_t, sort_rows, make_row, CellStatus, GateCells, PlatformSignals,
    ProjectShape,
};
use lightarchitects_webshell::northstar::{
    focus_index, hint_for, pulse_pillars, score_p2, score_p3, score_p7, status_for, Signals,
};

fn cells(values: [CellStatus; 7]) -> GateCells {
    GateCells {
        a: values[0],
        s: values[1],
        q: values[2],
        t: values[3],
        p: values[4],
        d: values[5],
        k: values[6],
    }
}

fn empty_signals() -> PlatformSignals {
    PlatformSignals { soul_present: false, active_builds: 0, hitl_by_project: Vec::new() }
}

#[test]
fn risk_high_on_any_fail() {
    let c = cells([CellStatus::Okay; 7]);
    assert_eq!(roll_up_risk(&c), "OK");
    let mut c2 = cells([CellStatus::Okay; 7]);
    c2.q = CellStatus::Fail;
    assert_eq!(roll_up_risk(&c2), "HIGH");
}

#[test]
fn risk_med_with_two_warns() {
    let mut c = cells([CellStatus::Okay; 7]);
    c.s = CellStatus::Warn;
    c.t = CellStatus::Warn;
    assert_eq!(roll_up_risk(&c), "MED");
}

#[test]
fn risk_low_with_one_warn() {
    let mut c = cells([CellStatus::Okay; 7]);
    c.d = CellStatus::Warn;
    assert_eq!(roll_up_risk(&c), "LOW");
}

#[test]
fn s_scales_with_hitl_count() {
    assert!(matches!(score_s(0), CellStatus::Okay));
    assert!(matches!(score_s(1), CellStatus::Warn));
    assert!(matches!(score_s(2), CellStatus::Fail));
    assert!(matches!(score_s(99), CellStatus::Fail));
}

#[test]
fn q_warns_when_findings_present() {
    let shape = ProjectShape { has_findings_dir: true, ..ProjectShape::default() };
    assert!(matches!(score_q(shape), CellStatus::Warn));
    assert!(matches!(score_q(ProjectShape::default()), CellStatus::Okay));
}

#[test]
fn t_falls_through_to_na_when_idle_and_no_tests() {
    let signals = empty_signals();
    assert!(matches!(score_t(&signals, ProjectShape::default()), CellStatus::Na));
}

#[test]
fn t_warns_when_active_and_no_tests() {
    let mut signals = empty_signals();
    signals.active_builds = 1;
    assert!(matches!(score_t(&signals, ProjectShape::default()), CellStatus::Warn));
}

#[test]
fn d_fails_when_no_readme_or_claude_md() {
    assert!(matches!(score_d(ProjectShape::default()), CellStatus::Fail));
}

#[test]
fn d_warns_when_only_one_doc_present() {
    let s1 = ProjectShape { has_readme: true, ..ProjectShape::default() };
    let s2 = ProjectShape { has_claude_md: true, ..ProjectShape::default() };
    assert!(matches!(score_d(s1), CellStatus::Warn));
    assert!(matches!(score_d(s2), CellStatus::Warn));
}

#[test]
fn d_ok_when_both_docs_present() {
    let shape = ProjectShape { has_readme: true, has_claude_md: true, ..ProjectShape::default() };
    assert!(matches!(score_d(shape), CellStatus::Okay));
}

#[test]
fn k_fails_without_soul() {
    let shape = ProjectShape { has_typed_project: true, ..ProjectShape::default() };
    assert!(matches!(score_k(&empty_signals(), shape), CellStatus::Fail));
}

#[test]
fn k_ok_with_soul_and_typed_project() {
    let mut signals = empty_signals();
    signals.soul_present = true;
    let shape = ProjectShape { has_typed_project: true, ..ProjectShape::default() };
    assert!(matches!(score_k(&signals, shape), CellStatus::Okay));
}

#[test]
fn a_warns_when_untyped_and_builds_active() {
    let mut signals = empty_signals();
    signals.active_builds = 2;
    assert!(matches!(score_a(&signals, ProjectShape::default()), CellStatus::Warn));
}

#[test]
fn derive_cells_composes_per_gate() {
    let mut signals = empty_signals();
    signals.soul_present = true;
    signals.active_builds = 1;
    let shape = ProjectShape {
        has_typed_project: true,
        has_test_dir: true,
        has_readme: true,
        has_claude_md: true,
        has_findings_dir: false,
    };
    let cells = derive_cells(&signals, shape, 0);
    assert!(matches!(cells.a, CellStatus::Okay));
    assert!(matches!(cells.s, CellStatus::Okay));
    assert!(matches!(cells.q, CellStatus::Okay));
    assert!(matches!(cells.t, CellStatus::Okay));
    assert!(matches!(cells.p, CellStatus::Na));
    assert!(matches!(cells.d, CellStatus::Okay));
    assert!(matches!(cells.k, CellStatus::Okay));
    assert_eq!(roll_up_risk(&cells), "OK");
}

#[test]
fn risk_ranking_sorts_high_first() {
    assert!(risk_rank("HIGH") < risk_rank("MED"));
    assert!(risk_rank("MED") < risk_rank("LOW"));
    assert!(risk_rank("LOW") < risk_rank("OK"));
    assert_eq!(risk_rank("CRIT"), 0);
}

#[test]
fn rows_sort_by_risk_then_label() {
    let signals = empty_signals();
    let shape = ProjectShape { has_readme: true, has_claude_md: true, ..ProjectShape::default() };
    let rows = vec![
        make_row("b".into(), "beta".into(), "main".into(), &signals, shape, 0),
        make_row("a".into(), "alpha".into(), "main".into(), &signals, shape, 0),
        make_row("c".into(), "gamma".into(), "main".into(), &signals, shape, 1),
    ];
    let sorted = sort_rows(rows);
    let labels: Vec<&str> = sorted.iter().map(|r| r.label.as_str()).collect();
    assert_eq!(labels, vec!["alpha", "beta", "gamma"]);
    assert_eq!(sorted[0].risk, "HIGH");
}

#[test]
fn meta_reads_branch_from_head() {
    assert_eq!(derive_meta(Some("ref: refs/heads/main\n")), "main");
    assert_eq!(derive_meta(Some("0123abcd\n")), "detached");
    assert_eq!(derive_meta(None), "untracked");
}

#[test]
fn hitl_tally_counts_awaiting_tasks_per_project() {
    let tasks = vec![
        ("p1".to_string(), "awaiting_operator_resolution".to_string()),
        ("p2".to_string(), "resolved".to_string()),
        ("p1".to_string(), "awaiting_operator_resolution".to_string()),
        ("p3".to_string(), "awaiting_operator_resolution".to_string()),
    ];
    let t = gather_hitl_by_project(&tasks);
    assert_eq!(t, vec![("p1".to_string(), 2), ("p3".to_string(), 1)]);
}

#[test]
fn status_thresholds_are_correct() {
    assert_eq!(status_for(100), "ok");
    assert_eq!(status_for(80), "ok");
    assert_eq!(status_for(79), "warn");
    assert_eq!(status_for(50), "warn");
    assert_eq!(status_for(49), "err");
    assert_eq!(status_for(0), "err");
}

#[test]
fn focus_picks_lowest() {
    let scores: [u8; 7] = [93, 58, 91, 73, 100, 78, 95];
    assert_eq!(focus_index(scores), 1);
}

#[test]
fn focus_breaks_ties_to_earliest() {
    let scores: [u8; 7] = [50, 50, 80, 80, 80, 80, 80];
    assert_eq!(focus_index(scores), 0);
}

#[test]
fn p2_penalises_drift_monotonically() {
    assert!(score_p2(0) >= score_p2(1));
    assert!(score_p2(1) >= score_p2(5));
    assert!(score_p2(20) <= 100);
    assert_eq!(score_p2(3), 76);
    assert_eq!(score_p2(11), 20);
}

#[test]
fn p3_handles_zero_builds() {
    assert_eq!(score_p3(0, 0), 88);
    assert_eq!(score_p3(1, 3), 33);
    assert_eq!(score_p3(9, 3), 100);
}

#[test]
fn p7_with_no_supervisors_is_optimistic() {
    assert_eq!(score_p7(0, 0), 95);
    assert_eq!(score_p7(99, 0), 95);
    assert_eq!(score_p7(1, 4), 88);
}

#[test]
fn hints_reflect_signals() {
    let s = Signals { active_builds: 1, supervisors: 12, drift_total: 0, soul_present: true, hitl_open: 0 };
    assert_eq!(hint_for(0, &s), "1 active build");
    assert_eq!(hint_for(1, &s), "no supervisor drift");
    assert_eq!(hint_for(5, &s), "12 supervisor state(s) tracked");
    assert_eq!(hint_for(9, &s), "");
    let t = Signals { active_builds: 0, supervisors: 0, drift_total: 407, soul_present: false, hitl_open: 0 };
    assert_eq!(hint_for(0, &t), "0 active builds");
    assert_eq!(hint_for(1, &t), "407 consecutive drift wave(s) across supervisors");
    assert_eq!(hint_for(4, &t), "SOUL store unavailable");
}

#[test]
fn pulse_marks_exactly_one_focus() {
    let s = Signals { active_builds: 0, supervisors: 0, drift_total: 0, soul_present: false, hitl_open: 0 };
    let ps = pulse_pillars(&s);
    assert_eq!(ps.len(), 7);
    let focused: Vec<&str> = ps.iter().filter(|p| p.focus).map(|p| p.id).collect();
    assert_eq!(focused, vec!["P5"]);
    assert_eq!(ps[4].score, 40);
    assert_eq!(ps[4].status, "err");
}
