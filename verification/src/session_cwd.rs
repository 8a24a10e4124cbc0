//! The working directory a stored agent session was created in, read from
//! the first records of its JSONL transcript.
use vstd::prelude::*;

use crate::fork::{is_safe_session_id, safe_session_id};
use crate::text::{chars_of, opt_chars, string_of, trim, trimmed};

verus! {

/// Most transcript lines looked at.
pub const MAX_CWD_LINES: usize = 50;

/// The `cwd` string field of a JSON text, when the text parses as JSON and
/// has one (possibly empty).
pub uninterp spec fn json_cwd_of(text: Seq<char>) -> Option<Seq<char>>;

/// `serde_json::from_str::<Value>(text)`, then `.get("cwd")` as a string.
/// Claimed of it: the result is a function of the text alone, named
/// `json_cwd_of`.
#[verifier::external_body]
fn json_cwd(text: &str) -> (r: Option<String>)
    ensures
        opt_chars(r) == json_cwd_of(text@),
{
    match serde_json::from_str::<serde_json::Value>(text) {
        Ok(v) => v.get("cwd").and_then(serde_json::Value::as_str).map(|c| c.to_string()),
        Err(_) => None,
    }
}

/// The `cwd` of a line, when it has one that is not empty.
pub open spec fn line_cwd(line: Seq<char>) -> Option<Seq<char>> {
    match json_cwd_of(line) {
        Some(c) => if c.len() > 0 {
            Some(c)
        } else {
            None
        },
        None => None,
    }
}

pub open spec fn str_views(v: Seq<String>) -> Seq<Seq<char>> {
    v.map_values(|s: String| s@)
}

/// The first `cwd` among the lines from `i` on (below `MAX_CWD_LINES`):
/// blank lines, lines without one and lines whose `cwd` is empty are passed
/// over.
pub open spec fn first_cwd_from(lines: Seq<Seq<char>>, i: int) -> Option<Seq<char>>
    decreases lines.len() - i,
{
    if i < 0 || i >= lines.len() || i >= MAX_CWD_LINES {
        None
    } else if trim(lines[i]).len() > 0 && line_cwd(trim(lines[i])) is Some {
        line_cwd(trim(lines[i]))
    } else {
        first_cwd_from(lines, i + 1)
    }
}

/// A `cwd` found is never empty.
pub proof fn lemma_first_cwd_nonempty(lines: Seq<Seq<char>>, i: int)
    ensures
        first_cwd_from(lines, i) matches Some(c) ==> c.len() > 0,
    decreases lines.len() - i,
{
    if !(i < 0 || i >= lines.len() || i >= MAX_CWD_LINES) {
        lemma_first_cwd_nonempty(lines, i + 1);
    }
}

/// The first `cwd` recorded in the first fifty lines of a transcript; an
/// empty `cwd` is passed over.
pub fn first_cwd(lines: &Vec<String>) -> (r: Option<String>)
    ensures
        opt_chars(r) == first_cwd_from(str_views(lines@), 0),
        r matches Some(c) ==> c@.len() > 0,
{
    proof {
        lemma_first_cwd_nonempty(str_views(lines@), 0);
    }
    let ghost lv = str_views(lines@);
    let mut i: usize = 0;
    while i < lines.len() && i < MAX_CWD_LINES
        invariant
            i <= lines.len(),
            lv == str_views(lines@),
            first_cwd_from(lv, 0) == first_cwd_from(lv, i as int),
        decreases lines.len() - i,
    {
        let t = string_of(&trimmed(&chars_of(lines[i].as_str())));
        assert(lv[i as int] == lines@[i as int]@);
        if chars_of(t.as_str()).len() > 0 {
            if let Some(c) = json_cwd(t.as_str()) {
                if chars_of(c.as_str()).len() > 0 {
                    return Some(c);
                }
            }
        }
        i += 1;
    }
    None
}

/// The transcript file name of a session, `<id>.jsonl`, for a safe id only.
pub fn session_file_name(session_id: &str) -> (r: Option<String>)
    ensures
        safe_session_id(session_id) ==> (r matches Some(f) && f@ == session_id@ + ".jsonl"@),
        !safe_session_id(session_id) ==> r is None,
{
    if !is_safe_session_id(session_id) {
        return None;
    }
    Some(String::from_str(session_id).concat(".jsonl"))
}

} // verus!
