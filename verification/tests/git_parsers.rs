use lightarchitects_webshell::git::{
    is_blame_hash_line, parse_blame_porcelain, parse_hunk_range, parse_log_file_output,
    parse_unified_diff, parse_worktree_porcelain, validate_branch_name, validate_git_ref,
    validate_path_arg, DiffLineKind,
};

#[test]
fn parse_worktree_porcelain_handles_single_main_worktree() {
    let stdout = "worktree /Users/kft/Projects/repo\nHEAD abc123def\nbranch refs/heads/main\n\n";
    let rows = parse_worktree_porcelain(stdout);
    assert_eq!(rows.len(), 1);
    assert_eq!(rows[0].path, "/Users/kft/Projects/repo");
    assert_eq!(rows[0].branch, "main");
    assert_eq!(rows[0].head_sha, "abc123def");
    assert!(!rows[0].locked);
}

#[test]
fn parse_worktree_porcelain_handles_multiple_worktrees_with_lock() {
    let stdout = "worktree /a\nHEAD aaa\nbranch refs/heads/main\n\n\
                  worktree /b\nHEAD bbb\nbranch refs/heads/feat/foo\nlocked\n\n\
                  worktree /c\nHEAD ccc\ndetached\n";
    let rows = parse_worktree_porcelain(stdout);
    assert_eq!(rows.len(), 3);
    assert_eq!(rows[0].branch, "main");
    assert!(!rows[0].locked);
    assert_eq!(rows[1].branch, "feat/foo");
    assert!(rows[1].locked);
    assert_eq!(rows[2].branch, "(detached)");
}

#[test]
fn parse_worktree_porcelain_handles_locked_with_reason() {
    let stdout = "worktree /a\nHEAD aaa\nbranch refs/heads/main\nlocked manual lock for testing\n";
    let rows = parse_worktree_porcelain(stdout);
    assert_eq!(rows.len(), 1);
    assert!(rows[0].locked);
}

#[test]
fn parse_worktree_porcelain_handles_empty_input() {
    let rows = parse_worktree_porcelain("");
    assert!(rows.is_empty());
}

#[test]
fn parse_worktree_porcelain_ignores_lines_before_first_worktree() {
    let rows = parse_worktree_porcelain("HEAD zzz\nlocked\nworktree /x\r\nHEAD 111\r\n");
    assert_eq!(rows.len(), 1);
    assert_eq!(rows[0].path, "/x");
    assert_eq!(rows[0].head_sha, "111");
    assert_eq!(rows[0].branch, "");
    assert!(!rows[0].locked);
}

#[test]
fn parse_unified_diff_empty_input() {
    let (hunks, stats) = parse_unified_diff("");
    assert!(hunks.is_empty());
    assert_eq!(stats.added, 0);
    assert_eq!(stats.removed, 0);
    assert_eq!(stats.hunks, 0);
}

#[test]
fn parse_unified_diff_single_hunk() {
    let raw = "@@ -1,3 +1,4 @@\n context\n-removed\n+added\n+extra\n context\n";
    let (hunks, stats) = parse_unified_diff(raw);
    assert_eq!(hunks.len(), 1);
    assert_eq!(stats.added, 2);
    assert_eq!(stats.removed, 1);
    let lines = &hunks[0].lines;
    assert_eq!(lines[0].kind, DiffLineKind::Ctx);
    assert_eq!(lines[1].kind, DiffLineKind::Del);
    assert_eq!(lines[2].kind, DiffLineKind::Add);
}

#[test]
fn parse_unified_diff_numbers_lines_from_the_header() {
    let raw = "diff --git a/x b/x\n--- a/x\n+++ b/x\n@@ -10,2 +20 @@ fn f\n a\n-b\n+c\n@@ -30 +40,2 @@\n+d\n";
    let (hunks, stats) = parse_unified_diff(raw);
    assert_eq!(stats.hunks, 2);
    assert_eq!(hunks[0].header, "@@ -10,2 +20 @@ fn f");
    assert_eq!((hunks[0].old_start, hunks[0].old_count), (10, 2));
    assert_eq!((hunks[0].new_start, hunks[0].new_count), (20, 1));
    assert_eq!(hunks[0].lines.len(), 3);
    assert_eq!(hunks[0].lines[0].old_n, Some(10));
    assert_eq!(hunks[0].lines[0].new_n, Some(20));
    assert_eq!(hunks[0].lines[1].old_n, Some(11));
    assert_eq!(hunks[0].lines[1].new_n, None);
    assert_eq!(hunks[0].lines[2].new_n, Some(21));
    assert_eq!(hunks[0].lines[2].content, "c");
    assert_eq!((hunks[1].old_start, hunks[1].old_count), (30, 1));
    assert_eq!(hunks[1].lines[0].new_n, Some(40));
    assert_eq!(stats.added, 2);
    assert_eq!(stats.removed, 1);
}

#[test]
fn parse_hunk_range_with_count() {
    assert_eq!(parse_hunk_range("10,5"), (10, 5));
}

#[test]
fn parse_hunk_range_without_count_defaults_to_one() {
    assert_eq!(parse_hunk_range("7"), (7, 1));
}

#[test]
fn parse_hunk_range_unparsable_parts_fall_back() {
    assert_eq!(parse_hunk_range(""), (0, 1));
    assert_eq!(parse_hunk_range("x,y"), (0, 1));
    assert_eq!(parse_hunk_range("+3,+4"), (3, 4));
}

#[test]
fn is_blame_hash_line_accepts_valid() {
    let line = "a".repeat(40) + " 1 1 1";
    assert!(is_blame_hash_line(&line));
}

#[test]
fn is_blame_hash_line_rejects_short() {
    assert!(!is_blame_hash_line("abc123 1 1"));
}

#[test]
fn parse_blame_porcelain_basic() {
    let hash = "a".repeat(40);
    let raw = format!(
        "{hash} 1 1 1\nauthor Alice\nauthor-time 1000\nsummary Fix bug\nfilename foo.rs\n\tcontent here\n"
    );
    let lines = parse_blame_porcelain(&raw);
    assert_eq!(lines.len(), 1);
    assert_eq!(lines[0].n, 1);
    assert_eq!(lines[0].content, "content here");
    assert_eq!(lines[0].commit.author_name, "Alice");
    assert_eq!(lines[0].commit.summary, "Fix bug");
    assert_eq!(lines[0].commit.author_time, 1000);
}

#[test]
fn parse_blame_porcelain_reuses_first_seen_commit_fields() {
    let hash = "b".repeat(40);
    let raw = format!(
        "{hash} 1 1 2\nauthor Bob\nauthor-time -5\nsummary First\n\tone\n{hash} 2 2\n\ttwo\n"
    );
    let lines = parse_blame_porcelain(&raw);
    assert_eq!(lines.len(), 2);
    assert_eq!(lines[1].n, 2);
    assert_eq!(lines[1].commit.author_name, "Bob");
    assert_eq!(lines[1].commit.author_time, -5);
    assert_eq!(lines[1].commit.summary, "First");
}

#[test]
fn parse_blame_porcelain_empty_input() {
    assert!(parse_blame_porcelain("").is_empty());
}

#[test]
fn parse_log_file_output_basic() {
    let raw = "SPLIT\tabc123\tFix the bug\tAlice\t1000\n\n3\t1\tpath/file.rs\n";
    let commits = parse_log_file_output(raw);
    assert_eq!(commits.len(), 1);
    assert_eq!(commits[0].hash, "abc123");
    assert_eq!(commits[0].summary, "Fix the bug");
    assert_eq!(commits[0].added, 3);
    assert_eq!(commits[0].removed, 1);
}

#[test]
fn parse_log_file_output_sums_numstat_per_commit() {
    let raw = "SPLIT\th1\ts1\tA\t 5 \n1\t2\ta\n-\t-\tbin\n4\t0\tb\nSPLIT\th2\ts2\n";
    let commits = parse_log_file_output(raw);
    assert_eq!(commits.len(), 2);
    assert_eq!(commits[0].author_time, 5);
    assert_eq!((commits[0].added, commits[0].removed), (5, 2));
    assert_eq!(commits[1].author_name, "");
    assert_eq!(commits[1].author_time, 0);
}

#[test]
fn parse_log_file_output_empty_input() {
    assert!(parse_log_file_output("").is_empty());
}

#[test]
fn git_ref_validation_reports_each_rule() {
    assert_eq!(validate_git_ref(""), Err("ref must not be empty"));
    assert_eq!(validate_git_ref("-x"), Err("ref must not start with '-'"));
    assert_eq!(validate_git_ref(".x"), Err("ref must not start with '.'"));
    assert_eq!(validate_git_ref("a..b"), Err("ref must not contain '..'"));
    assert_eq!(validate_git_ref("a b"), Err("ref contains disallowed characters"));
    assert_eq!(validate_git_ref("HEAD@{1}"), Ok(()));
    assert_eq!(validate_git_ref("origin/main"), Ok(()));
}

#[test]
fn path_arg_validation() {
    assert_eq!(validate_path_arg("src/../x"), Err("path must not contain '..'"));
    assert_eq!(validate_path_arg(":(glob)*"), Err("path must not start with ':' (pathspec magic)"));
    assert_eq!(validate_path_arg("src/main.rs"), Ok(()));
}

#[test]
fn branch_name_validation() {
    assert_eq!(validate_branch_name("a"), Err("branch name too short (minimum 2 chars)"));
    assert_eq!(validate_branch_name("a..b"), Err("branch name must not contain '..'"));
    assert_eq!(validate_branch_name("-ab"), Err("branch name must start and end with [a-zA-Z0-9]"));
    assert_eq!(validate_branch_name("é"), Err("branch name must start and end with [a-zA-Z0-9]"));
    assert_eq!(validate_branch_name("a b"), Err("branch name contains disallowed characters"));
    assert_eq!(validate_branch_name("feat/x-1.2_y"), Ok(()));
}
