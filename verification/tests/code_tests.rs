use lightarchitects_webshell::code::{
    assemble_preview, cap_matches, parse_grep_line, preview_diff, read_content, read_window,
    search_command, sort_entries, within_root, write_size_ok, DirEntry, SearchMatch,
};

fn lines(v: &[&str]) -> Vec<String> {
    v.iter().map(|s| s.to_string()).collect()
}

#[test]
fn read_window_defaults_and_clips() {
    assert_eq!(read_window(10, None, None), (0, 10));
    assert_eq!(read_window(10, Some(0), None), (0, 10));
    assert_eq!(read_window(10, Some(3), Some(2)), (2, 4));
    assert_eq!(read_window(10, Some(9), Some(5)), (8, 10));
    assert_eq!(read_window(10, Some(20), Some(5)), (10, 10));
}

#[test]
fn read_content_joins_the_window() {
    let l = lines(&["a", "b", "c", "d"]);
    assert_eq!(read_content(&l, Some(2), Some(2)), Some("b\nc".to_string()));
    assert_eq!(read_content(&l, None, None), Some("a\nb\nc\nd".to_string()));
    assert_eq!(read_content(&l, Some(9), None), Some(String::new()));
    let big = vec!["x".repeat(600_000), "y".repeat(600_000)];
    assert_eq!(read_content(&big, None, None), None);
    assert_eq!(read_content(&big, Some(2), None), Some("y".repeat(600_000)));
}

#[test]
fn write_cap_is_ten_mebibytes() {
    assert!(write_size_ok("hello"));
    assert!(!write_size_ok(&"z".repeat(10_000_001)));
}

#[test]
fn grep_lines_parse_into_matches() {
    assert_eq!(
        parse_grep_line("/repo/src/main.rs:12:    fn main() {", "/repo"),
        Some(SearchMatch { file: "src/main.rs".into(), line: 12, text: "fn main() {".into() })
    );
    assert_eq!(
        parse_grep_line("other/a.rs: 3 :x:y", "/repo"),
        Some(SearchMatch { file: "other/a.rs".into(), line: 3, text: "x:y".into() })
    );
    assert_eq!(
        parse_grep_line("a.rs:7", "/repo"),
        Some(SearchMatch { file: "a.rs".into(), line: 7, text: String::new() })
    );
    assert_eq!(parse_grep_line("no colon here", "/repo"), None);
    assert_eq!(parse_grep_line("a.rs:x:text", "/repo"), None);
}

#[test]
fn search_command_prefers_ripgrep() {
    let (p, a) = search_command(true, false, true, "foo", "/r");
    assert_eq!(p, "rg");
    assert_eq!(a, vec!["--line-number", "--no-heading", "--color=never", "--ignore-case", "--fixed-strings", "foo", "/r"]);
    let (p, a) = search_command(false, true, false, "foo", "/r");
    assert_eq!(p, "grep");
    assert_eq!(a, vec!["-rn", "foo", "/r"]);
}

#[test]
fn matches_are_capped_at_two_hundred() {
    let many: Vec<String> = (0..205).map(|i| format!("l{i}")).collect();
    let (kept, truncated) = cap_matches(many);
    assert_eq!(kept.len(), 200);
    assert!(truncated);
    let (kept, truncated) = cap_matches(lines(&["a"]));
    assert_eq!(kept.len(), 1);
    assert!(!truncated);
}

#[test]
fn listing_puts_directories_first_then_names() {
    let e = |n: &str, d: bool| DirEntry { name: n.into(), is_dir: d, size: 0 };
    let sorted = sort_entries(vec![e("b.rs", false), e("src", true), e("a.rs", false), e("docs", true)]);
    let names: Vec<&str> = sorted.iter().map(|x| x.name.as_str()).collect();
    assert_eq!(names, vec!["docs", "src", "a.rs", "b.rs"]);
}

#[test]
fn paths_must_stay_under_the_root() {
    assert!(within_root("/w/repo/src/a.rs", "/w/repo"));
    assert!(within_root("/w/repo", "/w/repo"));
    assert!(!within_root("/w/repository/a.rs", "/w/repo"));
    assert!(!within_root("/etc/passwd", "/w/repo"));
}

#[test]
fn preview_of_equal_text_is_empty() {
    assert_eq!(preview_diff("/w/a.txt", "same\n", "same\n"), (String::new(), false));
    let (d, changed) = preview_diff("/w/a.txt", "one\ntwo\n", "one\nthree\n");
    assert!(changed);
    assert!(d.starts_with("--- /w/a.txt\n+++ /w/a.txt\n@@"));
    assert!(d.contains("-two\n"));
    assert!(d.contains("+three\n"));
    assert_eq!(assemble_preview("p", &vec!["H1".into(), "H2".into()]), "--- p\n+++ p\nH1--- p\n+++ p\nH2");
}

#[test]
fn preview_reports_change_only_when_texts_differ() {
    let (text, changed) = preview_diff("f.txt", "a\nb\n", "a\nc\n");
    assert!(changed);
    assert!(text.starts_with("--- f.txt\n+++ f.txt\n"));
    let (text, changed) = preview_diff("f.txt", "same\n", "same\n");
    assert!(!changed);
    assert_eq!(text, "");
}

#[test]
fn read_window_saturates_a_huge_limit() {
    assert_eq!(read_window(5, Some(2), Some(usize::MAX)), (1, 5));
    assert_eq!(read_window(5, Some(usize::MAX), Some(usize::MAX)), (5, 5));
    assert_eq!(read_window(5, None, Some(2)), (0, 2));
}
