use lightarchitects_webshell::think::{chunk_frames, history_for_model, HistoryTurn, ThinkSplitter};

#[test]
fn splitter_plain_text_passthrough() {
    let mut s = ThinkSplitter::new();
    let out = s.push("hello world");
    assert_eq!(out, vec![(false, "hello world".to_owned())]);
}

#[test]
fn splitter_detects_complete_think_tag() {
    let mut s = ThinkSplitter::new();
    let out = s.push("answer <think>reasoning here</think> done");
    assert_eq!(
        out,
        vec![
            (false, "answer ".to_owned()),
            (true, "reasoning here".to_owned()),
            (false, " done".to_owned()),
        ]
    );
}

#[test]
fn splitter_handles_tag_split_across_chunks() {
    let mut s = ThinkSplitter::new();
    let a = s.push("answer <thi");
    assert_eq!(a, vec![(false, "answer ".to_owned())]);
    let b = s.push("nk>reason</think> end");
    assert_eq!(b, vec![(true, "reason".to_owned()), (false, " end".to_owned())]);
}

#[test]
fn splitter_supports_thinking_variant() {
    let mut s = ThinkSplitter::new();
    let out = s.push("<thinking>secret</thinking>visible");
    assert_eq!(out, vec![(true, "secret".to_owned()), (false, "visible".to_owned())]);
}

#[test]
fn splitter_flushes_a_held_tail_at_the_end() {
    let mut s = ThinkSplitter::new();
    assert_eq!(s.push("x <"), vec![(false, "x ".to_owned())]);
    assert_eq!(s.flush(), Some((false, "<".to_owned())));
    let t = ThinkSplitter::new();
    assert_eq!(t.flush(), None);
}

#[test]
fn splitter_only_holds_a_lt_in_the_last_ten_bytes() {
    let mut s = ThinkSplitter::new();
    let out = s.push("a < b and then a long tail");
    assert_eq!(out, vec![(false, "a < b and then a long tail".to_owned())]);
}

#[test]
fn splitter_passes_text_whose_tail_starts_inside_a_character() {
    // The last ten bytes start inside an `é`; with no `<` in them, all of it is text.
    let mut s = ThinkSplitter::default();
    assert_eq!(s.push("é123456789"), vec![(false, "é123456789".to_owned())]);
    let mut t = ThinkSplitter::default();
    assert_eq!(t.push("ééééééa"), vec![(false, "ééééééa".to_owned())]);
    let mut u = ThinkSplitter::default();
    assert_eq!(u.push("ééééé<thi"), vec![(false, "ééééé".to_owned())]);
    assert_eq!(u.push("nk>x"), vec![(true, "x".to_owned())]);
}

#[test]
fn history_keeps_known_roles_in_order() {
    let turn = |r: &str, c: &str| HistoryTurn { role: r.to_string(), content: c.to_string() };
    let h = vec![turn("user", "hi"), turn("tool", "x"), turn("assistant", "hello"), turn("system", "s")];
    assert_eq!(
        history_for_model(&h),
        vec![
            ("user".to_string(), "hi".to_string()),
            ("assistant".to_string(), "hello".to_string()),
            ("system".to_string(), "s".to_string()),
        ]
    );
}

#[test]
fn frames_skip_empty_slices() {
    let f = chunk_frames(vec![(false, "a".into()), (true, String::new()), (true, "b".into())]);
    assert_eq!(f, vec![("delta", "a".to_string()), ("thinking_delta", "b".to_string())]);
}

fn flattened(chunks: &[&str]) -> Vec<(bool, char)> {
    let mut s = ThinkSplitter::new();
    let mut out = Vec::new();
    for c in chunks {
        for (flag, text) in s.push(c) {
            out.extend(text.chars().map(|ch| (flag, ch)));
        }
    }
    if let Some((flag, text)) = s.flush() {
        out.extend(text.chars().map(|ch| (flag, ch)));
    }
    out
}

#[test]
fn splitter_output_does_not_depend_on_chunking() {
    let whole = "intro <thinking>deep é thought</thinking> answer <b> done";
    let one = flattened(&[whole]);
    let cuts = [
        vec!["intro <thi", "nking>deep é thought</thi", "nking> answer <b> done"],
        vec!["intro ", "<", "thinking>deep é", " thought<", "/thinking> answer <b", "> done"],
        vec!["i", "ntro <thinking>deep é thought</thinking> answer <b> don", "e"],
    ];
    for c in cuts.iter() {
        assert_eq!(flattened(c), one, "cut as {:?}", c);
    }
    let text: String = one.iter().filter(|(f, _)| !*f).map(|(_, c)| *c).collect();
    let thought: String = one.iter().filter(|(f, _)| *f).map(|(_, c)| *c).collect();
    assert_eq!(text, "intro  answer <b> done");
    assert_eq!(thought, "deep é thought");
}
