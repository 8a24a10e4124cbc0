use lightarchitects_webshell::cockpit::{
    build_task_specs, ownership_gate, path_starts_with, validate_wave_request, validate_worktree_path,
    AgentAssignmentPayload, CockpitPreset, CockpitTargetPayload, WaveComposerRequest,
};
use lightarchitects_webshell::exec::{
    command_display, validate_arg, validate_argv, validate_binary, OutputBuffer, RunRefusal,
    SlidingWindowLimiter,
};

#[test]
fn binary_allowlist_checks_the_final_component() {
    assert_eq!(validate_binary("cargo"), Ok(()));
    assert_eq!(validate_binary("/usr/local/bin/node"), Ok(()));
    assert_eq!(validate_binary("/bin/sh"), Err("binary not in exec allowlist"));
    assert_eq!(validate_binary("cargo/"), Ok(()));
}

#[test]
fn argument_metacharacters_are_refused() {
    assert_eq!(validate_arg("--release"), Ok(()));
    assert_eq!(validate_arg("a;b"), Err("argument contains shell metacharacter"));
    assert_eq!(validate_arg("$(x)"), Err("argument contains shell metacharacter"));
    assert_eq!(validate_argv(&vec![]), Err(RunRefusal::BadRequest("argv is empty")));
    assert_eq!(
        validate_argv(&vec!["pnpm".to_string(), "a|b".to_string()]),
        Err(RunRefusal::Forbidden("argument contains shell metacharacter"))
    );
    assert_eq!(command_display(&vec!["cargo".into(), "test".into(), "-q".into()]), "cargo test -q");
}

#[test]
fn limiter_admits_fifty_per_window() {
    let mut l = SlidingWindowLimiter::new();
    for _ in 0..50 {
        assert!(l.check_and_record());
    }
    assert!(!l.check_and_record());
    assert_eq!(l.timestamps.len(), 50);
}

#[test]
fn output_buffer_rolls_and_pages() {
    let mut b = OutputBuffer::new();
    b.append_line("stdout", "a".repeat(600_000));
    b.append_line("stderr", "b".repeat(600_000));
    assert_eq!(b.buffer.len(), 1);
    assert_eq!(b.buffer[0].seq, 1);
    assert_eq!(b.buffer_bytes, 600_000 + 6 + 16);
    b.append_line("stdout", "c".into());
    let (chunks, next) = b.output_since(2);
    assert_eq!(chunks.len(), 1);
    assert_eq!(chunks[0].line, "c");
    assert_eq!(next, 3);
    let (none, same) = b.output_since(9);
    assert!(none.is_empty());
    assert_eq!(same, 9);
}

fn make_request(agents: Vec<AgentAssignmentPayload>) -> WaveComposerRequest {
    WaveComposerRequest {
        codename: "test-build".into(),
        agents,
        target: CockpitTargetPayload { target_type: "build".into(), id: "abc123".into(), label: "my build".into() },
        worktree: "/tmp/wt".into(),
    }
}

fn engineer_agent(task: &str, files: Vec<&str>) -> AgentAssignmentPayload {
    AgentAssignmentPayload {
        preset: CockpitPreset::Engineer,
        skill: "lightarchitects:engineer".into(),
        task_description: task.into(),
        file_ownership: files.into_iter().map(String::from).collect(),
    }
}

#[test]
fn build_task_specs_round_trip() {
    let req = make_request(vec![
        engineer_agent("implement auth", vec!["src/auth.rs"]),
        AgentAssignmentPayload {
            preset: CockpitPreset::Security,
            skill: "lightarchitects:security".into(),
            task_description: "audit the auth surface".into(),
            file_ownership: vec![],
        },
    ]);
    let specs = build_task_specs(&req);
    assert_eq!(specs.len(), 2);
    assert_eq!(specs[0].id, "wc-engineer-0");
    assert_eq!(specs[1].id, "wc-security-1");
    assert!(specs[0].prompt.contains("[preset:engineer]"));
    assert!(specs[0].prompt.contains("Git context: codename=test-build"));
    assert!(specs[0].prompt.contains("implement auth"));
    assert_eq!(specs[0].file_ownership, vec!["src/auth.rs"]);
    assert!(specs[1].file_ownership.is_empty());
}

#[test]
fn build_task_specs_deduplicates_file_ownership() {
    let req = make_request(vec![AgentAssignmentPayload {
        preset: CockpitPreset::Engineer,
        skill: "lightarchitects:engineer".into(),
        task_description: "task".into(),
        file_ownership: vec!["src/b.rs".into(), "src/a.rs".into(), "src/a.rs".into()],
    }]);
    let specs = build_task_specs(&req);
    assert_eq!(specs[0].file_ownership, vec!["src/a.rs", "src/b.rs"]);
}

#[test]
fn skill_derived_from_preset_not_operator_supplied() {
    let req = make_request(vec![AgentAssignmentPayload {
        preset: CockpitPreset::Quality,
        skill: "lightarchitects:seraph".into(),
        task_description: "audit".into(),
        file_ownership: vec![],
    }]);
    let specs = build_task_specs(&req);
    assert!(specs[0].prompt.contains("[skill:lightarchitects:quality]"));
    assert!(!specs[0].prompt.contains("lightarchitects:seraph"));
}

#[test]
fn all_presets_have_canonical_skill_keys() {
    let pairs = [
        (CockpitPreset::Engineer, "lightarchitects:engineer"),
        (CockpitPreset::Security, "lightarchitects:security"),
        (CockpitPreset::Ops, "lightarchitects:ops"),
        (CockpitPreset::Quality, "lightarchitects:quality"),
        (CockpitPreset::Knowledge, "lightarchitects:knowledge"),
        (CockpitPreset::Researcher, "lightarchitects:researcher"),
        (CockpitPreset::Testing, "lightarchitects:testing"),
    ];
    for (preset, expected) in pairs {
        assert_eq!(preset.skill(), expected);
    }
}

#[test]
fn cockpit_preset_as_str() {
    assert_eq!(CockpitPreset::Engineer.as_str(), "engineer");
    assert_eq!(CockpitPreset::Security.as_str(), "security");
    assert_eq!(CockpitPreset::Testing.as_str(), "testing");
}

#[test]
fn build_task_specs_includes_git_context_preamble() {
    let req = WaveComposerRequest {
        codename: "my-wave".into(),
        agents: vec![engineer_agent("implement feature", vec![])],
        target: CockpitTargetPayload { target_type: "pr".into(), id: "42".into(), label: "Add wave composer".into() },
        worktree: "/tmp/wt".into(),
    };
    let specs = build_task_specs(&req);
    assert_eq!(
        specs[0].prompt,
        "[preset:engineer] [skill:lightarchitects:engineer]\nGit context: codename=my-wave, target=pr:42 (Add wave composer), branch=feat/my-wave.\n\nimplement feature"
    );
}

#[test]
fn codename_regex_allows_valid_slugs() {
    for ok in ["cockpit-wave-composer", "my-build-01", "abc"] {
        let mut req = make_request(vec![engineer_agent("t", vec![])]);
        req.codename = ok.into();
        assert!(validate_wave_request(&req).is_ok(), "{ok}");
    }
}

#[test]
fn codename_regex_rejects_invalid_slugs() {
    for bad in ["ab", "my build", "UPPERCASE", "feat/my-build", "../escape"] {
        let mut req = make_request(vec![engineer_agent("t", vec![])]);
        req.codename = bad.into();
        assert_eq!(validate_wave_request(&req).unwrap_err().error, "invalid_codename", "{bad}");
    }
}

#[test]
fn too_many_agents_rejected_by_constant() {
    let agents: Vec<_> = (0..=7).map(|i| engineer_agent(&format!("task {i}"), vec![])).collect();
    let r = validate_wave_request(&make_request(agents)).unwrap_err();
    assert_eq!(r.error, "too_many_agents");
    assert_eq!(r.detail, "agent_count 8 exceeds max 7");
    assert_eq!(validate_wave_request(&make_request(vec![])).unwrap_err().error, "no_agents");
}

#[test]
fn validate_worktree_path_accepts_absolute_clean() {
    assert!(validate_worktree_path("/tmp/wt-abc", Some("/tmp"), "", "").is_ok());
    assert!(validate_worktree_path("/private/tmp/wt-xyz/my-build", Some("/private/tmp"), "", "").is_ok());
    assert!(validate_worktree_path("/home/u/wt", Some("/home/u"), "/home/u", "/home/u").is_ok());
}

#[test]
fn validate_worktree_path_rejects_relative() {
    assert!(validate_worktree_path("worktrees/my-build", None, "", "").is_err());
    assert!(validate_worktree_path("./wt", None, "", "").is_err());
}

#[test]
fn validate_worktree_path_rejects_parent_dir_traversal() {
    assert!(validate_worktree_path("/tmp/wt/../../etc/passwd", None, "", "").is_err());
    assert!(validate_worktree_path("/Users/kft/../../../etc", None, "", "").is_err());
}

#[test]
fn validate_worktree_path_rejects_tilde_home() {
    assert!(validate_worktree_path("~/lightarchitects/worktrees/my-build", None, "", "").is_err());
}

#[test]
fn reg_f2_traversal_at_path_end_rejected() {
    assert!(validate_worktree_path("/tmp/wt/../etc/passwd", None, "", "").is_err());
    assert!(validate_worktree_path("/tmp/../../etc", None, "", "").is_err());
}

#[test]
fn worktree_outside_roots_is_refused_and_prefixes_are_whole_components() {
    assert_eq!(
        validate_worktree_path("/etc/x", Some("/etc"), "", ""),
        Err("worktree path resolves outside permitted roots")
    );
    assert!(!path_starts_with("/tmpfoo", "/tmp"));
    assert!(path_starts_with("/tmp//a/./b/", "/tmp/a"));
    assert!(validate_worktree_path("/tmp/a..b/c", None, "", "").is_ok());
}

#[test]
fn reg_task_id_deterministic_and_stable() {
    let req = make_request(vec![engineer_agent("task", vec![])]);
    assert_eq!(build_task_specs(&req)[0].id, build_task_specs(&req)[0].id);
}

#[test]
fn ownership_conflict_rejected() {
    let req = make_request(vec![
        engineer_agent("task A", vec!["src/shared.rs"]),
        engineer_agent("task B", vec!["src/shared.rs"]),
    ]);
    let specs = build_task_specs(&req);
    let gate = ownership_gate(&specs);
    assert!(matches!(&gate, Err(w) if w.error == "ownership_conflict"));
    assert_eq!(
        gate.unwrap_err().detail,
        "file 'src/shared.rs' claimed by tasks [\"wc-engineer-0\", \"wc-engineer-1\"]"
    );
}

#[test]
fn disjoint_ownership_accepted() {
    let req = make_request(vec![
        engineer_agent("task A", vec!["src/foo.rs"]),
        engineer_agent("task B", vec!["src/bar.rs"]),
    ]);
    let specs = build_task_specs(&req);
    assert!(ownership_gate(&specs).is_ok());
}

#[test]
fn reg_ownership_conflict_error_not_silent() {
    let req = make_request(vec![
        engineer_agent("A", vec!["src/shared.rs"]),
        engineer_agent("B", vec!["src/shared.rs"]),
    ]);
    let specs = build_task_specs(&req);
    assert!(matches!(ownership_gate(&specs), Err(w) if w.error == "ownership_conflict"));
}

#[test]
fn build_task_specs_all_presets_produce_valid_ids() {
    let presets = [
        (CockpitPreset::Engineer, "engineer"),
        (CockpitPreset::Security, "security"),
        (CockpitPreset::Ops, "ops"),
        (CockpitPreset::Quality, "quality"),
        (CockpitPreset::Knowledge, "knowledge"),
        (CockpitPreset::Researcher, "researcher"),
        (CockpitPreset::Testing, "testing"),
    ];
    let agents: Vec<_> = presets
        .iter()
        .map(|(preset, _)| AgentAssignmentPayload {
            preset: *preset,
            skill: preset.skill().into(),
            task_description: "task".into(),
            file_ownership: vec![],
        })
        .collect();
    let req = make_request(agents);
    let specs = build_task_specs(&req);
    for (i, (_, name)) in presets.iter().enumerate() {
        assert!(specs[i].id.contains(name), "task id '{}' should contain preset name '{name}'", specs[i].id);
    }
}

#[test]
fn reg_f4_adversarial_skill_never_reaches_prompt() {
    let req = make_request(vec![AgentAssignmentPayload {
        preset: CockpitPreset::Engineer,
        skill: "lightarchitects:seraph".into(),
        task_description: "task".into(),
        file_ownership: vec![],
    }]);
    let specs = build_task_specs(&req);
    assert!(specs[0].prompt.contains("[skill:lightarchitects:engineer]"));
    assert!(!specs[0].prompt.contains("seraph"));
}

#[test]
fn validate_worktree_path_accepts_deep_absolute() {
    let path = "/tmp/tmp.x1/worktrees/proj/sub/wave-abc123";
    assert!(validate_worktree_path(path, Some("/private/tmp/tmp.x1"), "", "").is_ok());
}

#[test]
fn ownership_conflict_names_the_first_in_task_order() {
    let req = make_request(vec![
        engineer_agent("task A", vec!["src/x.rs"]),
        engineer_agent("task B", vec!["src/b.rs"]),
        engineer_agent("task C", vec!["src/x.rs", "src/b.rs"]),
    ]);
    let specs = build_task_specs(&req);
    assert_eq!(
        ownership_gate(&specs).unwrap_err().detail,
        "file 'src/b.rs' claimed by tasks [\"wc-engineer-1\", \"wc-engineer-2\"]"
    );
}
