use lightarchitects_webshell::server::asset_path;
use lightarchitects_webshell::server::bearer_ok;
use lightarchitects_webshell::server::{mcp_status, McpFailure};
use std::collections::BTreeMap;

use lightarchitects_webshell::server::{
    attempt_port, port_step, refresh_allowed, walk_query, BindOutcome, FileWalk, NonceBook,
    PortStep,
};

/// A simulated tree: directory path -> entries (name, is_dir).
fn tree(spec: &[(&str, &[(&str, bool)])]) -> BTreeMap<String, Vec<(String, bool)>> {
    spec.iter()
        .map(|(d, es)| (d.to_string(), es.iter().map(|(n, b)| (n.to_string(), *b)).collect()))
        .collect()
}

fn run_walk(t: &BTreeMap<String, Vec<(String, bool)>>, root: &str, q: Option<&str>) -> Vec<String> {
    let mut w = FileWalk::new(root.to_string(), walk_query(q));
    let mut done = false;
    while !done {
        let Some((dir, depth)) = w.next_dir() else { break };
        for (name, is_dir) in t.get(&dir).cloned().unwrap_or_default() {
            let path = format!("{dir}/{name}");
            let rel = path.strip_prefix(&format!("{root}/")).map(str::to_string);
            w.visit(depth, &name, path, is_dir, !is_dir, rel);
            if w.is_finished() {
                done = true;
                break;
            }
        }
    }
    w.results()
}

#[test]
fn empty_query_returns_all_files() {
    let t = tree(&[("/r", &[("a.rs", false), ("src", true)]), ("/r/src", &[("b.rs", false)])]);
    assert_eq!(run_walk(&t, "/r", None), vec!["a.rs", "src/b.rs"]);
}

#[test]
fn query_filters_by_filename_substring() {
    let t = tree(&[("/r", &[("main.rs", false), ("lib.rs", false), ("notes.md", false)])]);
    assert_eq!(run_walk(&t, "/r", Some("rs")), vec!["main.rs", "lib.rs"]);
}

#[test]
fn query_is_case_insensitive() {
    let t = tree(&[("/r", &[("README.md", false), ("x.txt", false)])]);
    assert_eq!(run_walk(&t, "/r", Some("ReadMe")), vec!["README.md"]);
}

#[test]
fn skip_dirs_and_hidden_entries_are_excluded() {
    let t = tree(&[
        ("/r", &[("target", true), ("node_modules", true), (".hidden", false), (".git", true), ("ok", true)]),
        ("/r/target", &[("t.rs", false)]),
        ("/r/ok", &[("k.rs", false)]),
    ]);
    assert_eq!(run_walk(&t, "/r", None), vec!["ok/k.rs"]);
}

#[test]
fn deep_tree_respects_depth_limit() {
    let t = tree(&[
        ("/r", &[("d1", true)]),
        ("/r/d1", &[("d2", true)]),
        ("/r/d1/d2", &[("d3", true)]),
        ("/r/d1/d2/d3", &[("d4", true)]),
        ("/r/d1/d2/d3/d4", &[("d5", true)]),
        ("/r/d1/d2/d3/d4/d5", &[("f5.rs", false), ("d6", true)]),
        ("/r/d1/d2/d3/d4/d5/d6", &[("f6.rs", false)]),
    ]);
    assert_eq!(run_walk(&t, "/r", None), vec!["d1/d2/d3/d4/d5/f5.rs"]);
}

#[test]
fn max_results_cap_is_honoured() {
    let names: Vec<String> = (0..80).map(|i| format!("f{i:02}.rs")).collect();
    let entries: Vec<(&str, bool)> = names.iter().map(|n| (n.as_str(), false)).collect();
    let t = tree(&[("/r", &entries)]);
    let mut w = FileWalk::new("/r".to_string(), walk_query(None));
    let (dir, depth) = w.next_dir().unwrap();
    let mut visited = 0;
    for (name, is_dir) in t.get(&dir).cloned().unwrap() {
        w.visit(depth, &name, format!("{dir}/{name}"), is_dir, true, Some(name.clone()));
        visited += 1;
        if visited == 50 {
            break;
        }
    }
    assert_eq!(w.next_dir(), None, "a finished walk reads nothing more");
    assert_eq!(w.results().len(), 50);
}

#[test]
fn no_results_when_no_match() {
    let t = tree(&[("/r", &[("a.rs", false)])]);
    assert!(run_walk(&t, "/r", Some("zzz")).is_empty());
}

#[test]
fn port_retry_walks_three_ports_then_gives_up() {
    assert_eq!(attempt_port(8733, 2), 8735);
    assert_eq!(attempt_port(65535, 1), 0);
    assert_eq!(port_step(8733, 0, BindOutcome::Bound), PortStep::Serve(8733));
    assert_eq!(port_step(8733, 1, BindOutcome::InUse), PortStep::Retry);
    assert_eq!(port_step(8733, 3, BindOutcome::InUse), PortStep::AllInUse { first_port: 8733, tried: 3 });
    assert_eq!(port_step(8733, 2, BindOutcome::Failed), PortStep::BindError(8735));
}

#[test]
fn preflight_refresh_is_throttled_to_ten_seconds() {
    assert!(!refresh_allowed(105, 100));
    assert!(refresh_allowed(110, 100));
    assert!(!refresh_allowed(50, 100));
}

#[test]
fn nonces_are_single_use_and_expire() {
    let mut book = NonceBook::new();
    assert!(book.issue(7, 1_000));
    assert!(!book.issue(7, 2_000), "a live nonce is not issued twice");
    assert!(book.redeem(7, 30_000));
    assert!(!book.redeem(7, 30_001), "second redemption fails");
    assert!(book.issue(8, 1_000));
    assert!(!book.redeem(8, 61_001), "expired");
    assert!(!book.redeem(9, 0), "never issued");
}

#[test]
fn asset_paths_default_to_the_index() {
    assert_eq!(asset_path("/"), "index.html");
    assert_eq!(asset_path(""), "index.html");
    assert_eq!(asset_path("//assets/app.js"), "assets/app.js");
}

#[test]
fn bearer_header_must_carry_the_exact_token() {
    assert!(bearer_ok(Some("Bearer test-token"), "test-token"));
    assert!(!bearer_ok(Some("Bearer wrong"), "test-token"));
    assert!(!bearer_ok(Some("test-token"), "test-token"));
    assert!(!bearer_ok(None, "test-token"));
}

#[test]
fn mcp_failures_map_to_statuses() {
    assert_eq!(mcp_status(McpFailure::NotFound), 404);
    assert_eq!(mcp_status(McpFailure::NotReady), 503);
    assert_eq!(mcp_status(McpFailure::Scope), 403);
    assert_eq!(mcp_status(McpFailure::Other), 502);
}

#[test]
fn results_are_relative_paths() {
    let t = tree(&[("/r", &[("src", true)]), ("/r/src", &[("main.rs", false)])]);
    assert_eq!(run_walk(&t, "/r", Some("main")), vec!["src/main.rs".to_owned()]);
}

#[test]
fn skip_dirs_are_excluded() {
    let t = tree(&[
        ("/r", &[("target", true), ("node_modules", true), (".git", true), ("keep_me.rs", false)]),
        ("/r/target", &[("skip_me.rs", false)]),
        ("/r/node_modules", &[("skip_me.rs", false)]),
        ("/r/.git", &[("skip_me.rs", false)]),
    ]);
    let results = run_walk(&t, "/r", None);
    assert!(results.contains(&"keep_me.rs".to_owned()), "{results:?}");
    assert!(!results.iter().any(|p| p.contains("skip_me")), "{results:?}");
}

#[test]
fn hidden_files_are_excluded() {
    let t = tree(&[("/r", &[(".hidden_file", false), ("visible.rs", false)])]);
    let results = run_walk(&t, "/r", None);
    assert!(!results.iter().any(|p| p.starts_with('.')), "{results:?}");
    assert!(results.contains(&"visible.rs".to_owned()), "{results:?}");
}
