use lightarchitects_webshell::git_ops::{
    branch_plan, commit_args, commit_sha, diff_args, force_push_refusal, log_file_count, log_limit,
    parse_branch_names, parse_branch_rows, parse_git_log, parse_status_porcelain, pull_merged,
    pulls_url, push_args, reviews_url, splitn, StatusEntry,
};

fn v(s: &[&str]) -> Vec<String> {
    s.iter().map(|x| x.to_string()).collect()
}

#[test]
fn splitn_keeps_the_rest_in_the_last_piece() {
    let chars: Vec<char> = "a\tb\tc\td".chars().collect();
    let p: Vec<String> = splitn(&chars, '\t', 3).into_iter().map(|x| x.into_iter().collect()).collect();
    assert_eq!(p, v(&["a", "b", "c\td"]));
}

#[test]
fn status_porcelain_lines_become_entries() {
    let out = " M src/a.rs\n?? new.txt\nx\nA  b c.rs\n";
    assert_eq!(
        parse_status_porcelain(out),
        Some(vec![
            StatusEntry { path: "src/a.rs".into(), status: "M".into() },
            StatusEntry { path: "new.txt".into(), status: "??".into() },
            StatusEntry { path: "b c.rs".into(), status: "A".into() },
        ])
    );
    assert_eq!(parse_status_porcelain(""), Some(vec![]));
    assert_eq!(parse_status_porcelain("aé x"), None);
}

#[test]
fn log_lines_become_commits() {
    let out = "abc123\tabc\tfix: thing\tAda\t2026-01-01 10:00:00 +0000\tp1 p2\tHEAD -> main, origin/main\n\nd\te\tf\tg\th\t\t\n";
    let commits = parse_git_log(out);
    assert_eq!(commits.len(), 2);
    assert_eq!(commits[0].sha, "abc123");
    assert_eq!(commits[0].message, "fix: thing");
    assert_eq!(commits[0].parent_shas, v(&["p1", "p2"]));
    assert_eq!(commits[0].refs, v(&["HEAD -> main", "origin/main"]));
    assert!(commits[1].parent_shas.is_empty());
    assert!(commits[1].refs.is_empty());
}

#[test]
fn branch_lines_become_rows() {
    let rows = parse_branch_rows("main\tabc\t*\nfeat\tdef\t \n");
    assert_eq!(rows.len(), 2);
    assert!(rows[0].is_current);
    assert_eq!(rows[1].name, "feat");
    assert!(!rows[1].is_current);
    assert_eq!(parse_branch_names("main\n\nfeat\n"), v(&["main", "feat"]));
}

#[test]
fn limits_default_and_cap() {
    assert_eq!(log_limit(None), 40);
    assert_eq!(log_limit(Some("7")), 7);
    assert_eq!(log_limit(Some("500")), 100);
    assert_eq!(log_limit(Some("x")), 40);
    assert_eq!(log_file_count(None), 20);
    assert_eq!(log_file_count(Some(250)), 100);
}

#[test]
fn commit_output_gives_the_short_sha() {
    assert_eq!(commit_sha("[main abc1234] fix it\n 1 file changed"), "abc1234");
    assert_eq!(commit_sha("nothing to commit"), "unknown");
    assert_eq!(commit_sha(""), "unknown");
}

#[test]
fn pull_reports_a_merge_unless_up_to_date() {
    assert!(!pull_merged("Already up to date.\n"));
    assert!(pull_merged("Updating a..b\nFast-forward\n"));
}

#[test]
fn branch_operations_are_planned_and_screened() {
    let p = branch_plan("list", None).unwrap();
    assert_eq!(p.args, v(&["branch", "--format=%(refname:short)"]));
    assert_eq!(p.answer_key, "branches");
    let p = branch_plan("create", Some("feat/x")).unwrap();
    assert_eq!(p.args, v(&["checkout", "-b", "feat/x"]));
    assert_eq!(p.answer_key, "created");
    assert_eq!(branch_plan("switch", Some("main")).unwrap().answer_key, "switched_to");
    assert_eq!(branch_plan("delete", Some("old")).unwrap().args, v(&["branch", "-d", "old"]));
    assert_eq!(branch_plan("delete", None), Err("missing required field: name for op=delete".into()));
    assert_eq!(branch_plan("create", Some("a..b")), Err("branch name must not contain '..'".into()));
    assert_eq!(branch_plan("merge", Some("x")), Err("op must be one of: list, create, switch, delete".into()));
}

#[test]
fn push_diff_and_commit_arguments() {
    assert_eq!(force_push_refusal(true), Some("force push is permanently disabled (T-5)"));
    assert_eq!(force_push_refusal(false), None);
    assert_eq!(push_args(false, None), Ok(v(&["push"])));
    assert_eq!(push_args(true, None), Ok(v(&["push", "--set-upstream", "origin", "HEAD"])));
    assert_eq!(push_args(true, Some("-x")), Err("branch name must start and end with [a-zA-Z0-9]"));
    assert_eq!(diff_args(true, Some("src/a.rs")), Ok(v(&["diff", "--staged", "--", "src/a.rs"])));
    assert_eq!(diff_args(false, None), Ok(v(&["diff"])));
    assert_eq!(diff_args(false, Some("../x")), Err("path must not contain '..'"));
    assert_eq!(commit_args("msg"), v(&["commit", "--no-verify", "-m", "msg"]));
    assert_eq!(pulls_url("o", "r"), "https://api.github.com/repos/o/r/pulls");
    assert_eq!(reviews_url("o", "r", 42), "https://api.github.com/repos/o/r/pulls/42/reviews");
}
