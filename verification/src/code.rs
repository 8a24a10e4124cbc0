//! The code-editor API: the confinement of paths to the working directory,
//! the line window of a read, the parsing of search output, the order of a
//! directory listing and the assembly of a preview diff.
use vstd::prelude::*;

use crate::cockpit::{path_prefix, path_starts_with};
use crate::offsets::{byte_count, byte_len_of};
use crate::text::{
    chars_of, find_char, has_char, lemma_find_char, lemma_lex_antisym, lemma_lex_total,
    lemma_lex_trans, lex_le, lex_le_exec, opt_chars, parse_u64, parse_u64_spec, slice_of,
    string_of, trim, trimmed,
};

verus! {

/// Most bytes a read returns.
pub const MAX_READ_BYTES: u128 = 1_000_000;

/// Most bytes a write accepts.
pub const MAX_WRITE_BYTES: u128 = 10_000_000;

/// Most search matches returned.
pub const MAX_MATCHES: usize = 200;

// ── Paths ───────────────────────────────────────────────────────────────────

/// Whether a resolved path stays inside the canonical working directory,
/// comparing whole components.
pub fn within_root(resolved: &str, canonical_cwd: &str) -> (b: bool)
    ensures
        b == path_prefix(resolved@, canonical_cwd@),
{
    path_starts_with(resolved, canonical_cwd)
}

// ── Read window ─────────────────────────────────────────────────────────────

/// The window `[lo, hi)` of lines a read returns: from the 1-based `offset`
/// (1 when absent or 0) for `limit` lines (all when absent), clipped to
/// the file's `total` lines.
pub open spec fn window(total: int, offset: Option<usize>, limit: Option<usize>) -> (int, int) {
    let off = match offset {
        Some(o) => if o >= 1 {
            o as int
        } else {
            1
        },
        None => 1,
    };
    let start = off - 1;
    let lo = if start < total {
        start
    } else {
        total
    };
    let hi = match limit {
        Some(l) => if start + l < total {
            start + l
        } else {
            total
        },
        None => total,
    };
    (lo, hi)
}

/// The window of lines a read returns (a window running past the end, however
/// far, ends at the last line).
pub fn read_window(total: usize, offset: Option<usize>, limit: Option<usize>) -> (r: (usize, usize))
    ensures
        r.0 as int == window(total as int, offset, limit).0,
        r.1 as int == window(total as int, offset, limit).1,
        r.0 <= r.1 <= total,
{
    let off = match offset {
        Some(o) => if o >= 1 {
            o
        } else {
            1
        },
        None => 1,
    };
    let start = off - 1;
    let lo = if start < total {
        start
    } else {
        total
    };
    let hi = match limit {
        Some(l) => if start < total && l < total - start {
            start + l
        } else {
            total
        },
        None => total,
    };
    (lo, hi)
}

/// The lines joined by `\n`.
pub open spec fn joined_lines(lines: Seq<Seq<char>>) -> Seq<char>
    decreases lines.len(),
{
    if lines.len() == 0 {
        Seq::empty()
    } else if lines.len() == 1 {
        lines[0]
    } else {
        joined_lines(lines.drop_last()) + seq!['\n'] + lines.last()
    }
}

pub open spec fn str_views(v: Seq<String>) -> Seq<Seq<char>> {
    v.map_values(|s: String| s@)
}

/// What a read returns of the file's lines: the window's lines joined by
/// `\n`, refused (413) when over a mebibyte.
pub open spec fn read_result(lines: Seq<Seq<char>>, offset: Option<usize>, limit: Option<usize>) -> Option<
    Seq<char>,
> {
    let (lo, hi) = window(lines.len() as int, offset, limit);
    let c = joined_lines(lines.subrange(lo, hi));
    if byte_count(c) > MAX_READ_BYTES {
        None
    } else {
        Some(c)
    }
}

/// The content of a read: the window of `lines` joined, or `None` when it
/// is over the size cap.
pub fn read_content(lines: &Vec<String>, offset: Option<usize>, limit: Option<usize>) -> (r: Option<
    String,
>)
    ensures
        opt_chars(r) == read_result(str_views(lines@), offset, limit),
{
    let (lo, hi) = read_window(lines.len(), offset, limit);
    let ghost sel = str_views(lines@).subrange(lo as int, hi as int);
    let mut out: Vec<char> = Vec::new();
    let mut k: usize = lo;
    while k < hi
        invariant
            lo <= k <= hi <= lines.len(),
            sel == str_views(lines@).subrange(lo as int, hi as int),
            out@ == joined_lines(sel.take(k - lo)),
        decreases hi - k,
    {
        let line = chars_of(lines[k].as_str());
        assert(sel.take(k + 1 - lo).drop_last() =~= sel.take(k - lo));
        assert(sel[k - lo] == lines@[k as int]@);
        if k > lo {
            out.push('\n');
        }
        let mut j: usize = 0;
        let ghost base = out@;
        while j < line.len()
            invariant
                j <= line.len(),
                out@ == base + line@.take(j as int),
            decreases line.len() - j,
        {
            out.push(line[j]);
            assert(line@.take(j + 1) =~= line@.take(j as int).push(line[j as int]));
            j += 1;
        }
        assert(line@.take(line.len() as int) =~= line@);
        proof {
            if k > lo {
                assert(out@ =~= joined_lines(sel.take(k - lo)) + seq!['\n'] + sel[k - lo]);
            } else {
                assert(out@ =~= sel[0]);
            }
        }
        k += 1;
    }
    assert(sel.take(hi - lo) =~= sel);
    if byte_len_of(&out) > MAX_READ_BYTES {
        None
    } else {
        Some(string_of(&out))
    }
}

/// Whether written content is within the 10 MiB cap.
pub fn write_size_ok(content: &str) -> (b: bool)
    ensures
        b == (byte_count(content@) <= MAX_WRITE_BYTES),
{
    byte_len_of(&chars_of(content)) <= MAX_WRITE_BYTES
}

// ── Search ──────────────────────────────────────────────────────────────────

/// One search match.
#[derive(Debug, Clone, PartialEq, Eq)]
pub struct SearchMatch {
    pub file: String,
    pub line: u64,
    pub text: String,
}

/// The remainder of `p` after the directory `base`, as `Path::strip_prefix`
/// gives it.
pub uninterp spec fn path_strip_prefix(p: Seq<char>, base: Seq<char>) -> Option<Seq<char>>;

/// `Path::new(p).strip_prefix(base)`, lossily as text.  Claimed of it: the
/// result is a function of the two paths alone, named `path_strip_prefix`,
/// and it is `None` exactly when `base` is not a whole-component prefix of
/// `p`.
#[verifier::external_body]
fn strip_dir_prefix(p: &str, base: &str) -> (r: Option<String>)
    ensures
        opt_chars(r) == path_strip_prefix(p@, base@),
        r is Some <==> path_prefix(p@, base@),
{
    std::path::Path::new(p).strip_prefix(base).ok().map(|q| q.to_string_lossy().into_owned())
}

/// The three fields of a `file:line:text` line, split at its first two
/// colons (`splitn(3, ':')`): none when there is no colon.
pub open spec fn grep_fields(line: Seq<char>) -> Option<(Seq<char>, Seq<char>, Seq<char>)> {
    if !has_char(line, ':') {
        None
    } else {
        let i = find_char(line, ':');
        let rest = line.skip(i + 1);
        if has_char(rest, ':') {
            let j = find_char(rest, ':');
            Some((line.take(i), rest.take(j), rest.skip(j + 1)))
        } else {
            Some((line.take(i), rest, Seq::empty()))
        }
    }
}

/// A search match of a `file:line:text` output line: the file relative to
/// `cwd` when under it, the line number (after trimming), and the trimmed
/// text; none without a colon or a number.
pub open spec fn grep_match(line: Seq<char>, cwd: Seq<char>) -> Option<(Seq<char>, u64, Seq<char>)> {
    match grep_fields(line) {
        None => None,
        Some((f, n, t)) => match parse_u64_spec(trim(n)) {
            None => None,
            Some(num) => Some(
                (
                    match path_strip_prefix(f, cwd) {
                        Some(r) => r,
                        None => f,
                    },
                    num,
                    trim(t),
                ),
            ),
        },
    }
}

pub open spec fn match_view(m: Option<SearchMatch>) -> Option<(Seq<char>, u64, Seq<char>)> {
    match m {
        Some(x) => Some((x.file@, x.line, x.text@)),
        None => None,
    }
}

/// Parse one line of search output.
pub fn parse_grep_line(line: &str, cwd: &str) -> (m: Option<SearchMatch>)
    ensures
        match_view(m) == grep_match(line@, cwd@),
{
    let v = chars_of(line);
    let i = crate::text::find(&v, ':');
    proof {
        lemma_find_char(v@, ':');
    }
    if i >= v.len() {
        return None;
    }
    let file = slice_of(&v, 0, i);
    let rest = slice_of(&v, i + 1, v.len());
    assert(rest@ =~= v@.skip(i + 1));
    let j = crate::text::find(&rest, ':');
    proof {
        lemma_find_char(rest@, ':');
    }
    let (num_part, text_part) = if j < rest.len() {
        (slice_of(&rest, 0, j), slice_of(&rest, j + 1, rest.len()))
    } else {
        (slice_of(&rest, 0, rest.len()), Vec::new())
    };
    proof {
        if j < rest.len() {
            assert(num_part@ =~= rest@.take(j as int));
            assert(text_part@ =~= rest@.skip(j + 1));
        } else {
            assert(num_part@ =~= rest@);
        }
    }
    let num = match parse_u64(&trimmed(&num_part)) {
        Some(n) => n,
        None => {
            return None;
        },
    };
    let file_s = string_of(&file);
    assert(file@ =~= v@.take(i as int));
    let rel = match strip_dir_prefix(file_s.as_str(), cwd) {
        Some(r) => r,
        None => file_s,
    };
    Some(SearchMatch { file: rel, line: num, text: string_of(&trimmed(&text_part)) })
}

/// The arguments of the search command: ripgrep when present, else grep.
pub open spec fn search_args(use_rg: bool, case_sensitive: bool, fixed: bool, pattern: Seq<char>, root: Seq<char>) -> Seq<Seq<char>> {
    if use_rg {
        seq!["--line-number"@, "--no-heading"@, "--color=never"@] + (if !case_sensitive {
            seq!["--ignore-case"@]
        } else {
            Seq::empty()
        }) + (if fixed {
            seq!["--fixed-strings"@]
        } else {
            Seq::empty()
        }) + seq![pattern, root]
    } else {
        seq!["-rn"@] + (if !case_sensitive {
            seq!["-i"@]
        } else {
            Seq::empty()
        }) + (if fixed {
            seq!["-F"@]
        } else {
            Seq::empty()
        }) + seq![pattern, root]
    }
}

/// The program and arguments of a search.
pub fn search_command(use_rg: bool, case_sensitive: bool, fixed: bool, pattern: &str, root: &str) -> (r: (
    &'static str,
    Vec<String>,
))
    ensures
        r.0@ == (if use_rg {
            "rg"@
        } else {
            "grep"@
        }),
        str_views(r.1@) == search_args(use_rg, case_sensitive, fixed, pattern@, root@),
{
    let mut args: Vec<String> = Vec::new();
    let prog = if use_rg {
        args.push(String::from_str("--line-number"));
        args.push(String::from_str("--no-heading"));
        args.push(String::from_str("--color=never"));
        if !case_sensitive {
            args.push(String::from_str("--ignore-case"));
        }
        if fixed {
            args.push(String::from_str("--fixed-strings"));
        }
        "rg"
    } else {
        args.push(String::from_str("-rn"));
        if !case_sensitive {
            args.push(String::from_str("-i"));
        }
        if fixed {
            args.push(String::from_str("-F"));
        }
        "grep"
    };
    args.push(String::from_str(pattern));
    args.push(String::from_str(root));
    assert(str_views(args@) =~= search_args(use_rg, case_sensitive, fixed, pattern@, root@));
    (prog, args)
}

/// Keep the first 200 output lines; say whether more came.
pub fn cap_matches(lines: Vec<String>) -> (r: (Vec<String>, bool))
    ensures
        r.1 == (lines@.len() > MAX_MATCHES),
        r.0@ == if lines@.len() > MAX_MATCHES {
            lines@.take(MAX_MATCHES as int)
        } else {
            lines@
        },
{
    let mut lines = lines;
    let truncated = lines.len() > MAX_MATCHES;
    lines.truncate(MAX_MATCHES);
    (lines, truncated)
}

// ── Listing ─────────────────────────────────────────────────────────────────

/// One entry of a directory listing.
#[derive(Debug, Clone, PartialEq, Eq)]
pub struct DirEntry {
    pub name: String,
    pub is_dir: bool,
    pub size: u64,
}

/// Directories first, then by name.
pub open spec fn entry_le(a: DirEntry, b: DirEntry) -> bool {
    (a.is_dir && !b.is_dir) || (a.is_dir == b.is_dir && lex_le(a.name@, b.name@))
}

pub open spec fn entries_sorted(s: Seq<DirEntry>) -> bool {
    forall|i: int, j: int| 0 <= i < j < s.len() ==> entry_le(#[trigger] s[i], #[trigger] s[j])
}

proof fn lemma_entry_le_total(a: DirEntry, b: DirEntry)
    ensures
        entry_le(a, b) || entry_le(b, a),
{
    lemma_lex_total(a.name@, b.name@);
}

proof fn lemma_entry_le_trans(a: DirEntry, b: DirEntry, c: DirEntry)
    requires
        entry_le(a, b),
        entry_le(b, c),
    ensures
        entry_le(a, c),
{
    if a.is_dir == b.is_dir && b.is_dir == c.is_dir {
        lemma_lex_trans(a.name@, b.name@, c.name@);
    }
}

fn entry_le_exec(a: &DirEntry, b: &DirEntry) -> (r: bool)
    ensures
        r == entry_le(*a, *b),
{
    (a.is_dir && !b.is_dir) || (a.is_dir == b.is_dir && lex_le_exec(
        &chars_of(a.name.as_str()),
        &chars_of(b.name.as_str()),
    ))
}

/// A listing in display order: directories first, then by name.
pub fn sort_entries(entries: Vec<DirEntry>) -> (out: Vec<DirEntry>)
    ensures
        entries_sorted(out@),
        out@.to_multiset() == entries@.to_multiset(),
{
    broadcast use vstd::seq_lib::group_to_multiset_ensures;

    let ghost input = entries@;
    let mut rest = entries;
    let mut out: Vec<DirEntry> = Vec::new();
    let ghost mut taken: Seq<DirEntry> = Seq::empty();
    while rest.len() > 0
        invariant
            input == taken + rest@,
            entries_sorted(out@),
            out@.to_multiset() == taken.to_multiset(),
        decreases rest.len(),
    {
        let r = rest.remove(0);
        let ghost prev = taken;
        proof {
            assert(input == taken.push(r) + rest@);
            taken = taken.push(r);
        }
        let mut p: usize = 0;
        while p < out.len() && entry_le_exec(&out[p], &r)
            invariant
                p <= out.len(),
                forall|j: int| 0 <= j < p ==> entry_le(#[trigger] out@[j], r),
            decreases out.len() - p,
        {
            p += 1;
        }
        proof {
            if p < out.len() {
                lemma_entry_le_total(out@[p as int], r);
            }
            let old_out = out@;
            let new_out = old_out.insert(p as int, r);
            assert forall|i: int, j: int| 0 <= i < j < new_out.len() implies entry_le(
                #[trigger] new_out[i],
                #[trigger] new_out[j],
            ) by {
                if j < p {
                } else if i < p && j == p {
                } else if i < p && j > p {
                    assert(new_out[j] == old_out[j - 1]);
                } else if i == p {
                    assert(new_out[j] == old_out[j - 1]);
                    if j - 1 > p {
                        assert(entry_le(old_out[p as int], old_out[j - 1]));
                        lemma_entry_le_trans(r, old_out[p as int], old_out[j - 1]);
                    }
                } else {
                    assert(new_out[i] == old_out[i - 1]);
                    assert(new_out[j] == old_out[j - 1]);
                }
            }
        }
        let ghost old_out = out@;
        out.insert(p, r);
        proof {
            vstd::seq_lib::to_multiset_insert(old_out, p as int, r);
            vstd::seq_lib::to_multiset_build(prev, r);
        }
    }
    assert(taken =~= input);
    out
}

// ── Preview diff ────────────────────────────────────────────────────────────

/// The hunks of the unified line diff (context three) from `old` to `new`,
/// each as `similar` writes it.
pub uninterp spec fn unified_hunks_of(old: Seq<char>, new: Seq<char>) -> Seq<Seq<char>>;

/// `similar::TextDiff::from_lines(old, new).unified_diff().context_radius(3)
/// .iter_hunks()`, each hunk as text.  Claimed of it: the result is a
/// function of the two texts, named `unified_hunks_of`, and two equal texts
/// have no hunk.
#[verifier::external_body]
fn unified_hunks(old: &str, new: &str) -> (r: Vec<String>)
    ensures
        str_views(r@) == unified_hunks_of(old@, new@),
        old@ == new@ ==> r@.len() == 0,
{
    let diff = similar::TextDiff::from_lines(old, new);
    let mut out: Vec<String> = Vec::new();
    for hunk in diff.unified_diff().context_radius(3).iter_hunks() {
        out.push(hunk.to_string());
    }
    out
}

/// The kind of one change of a line diff.
#[derive(Debug, Clone, Copy, PartialEq, Eq, Structural)]
pub enum LineChange {
    Equal,
    Delete,
    Insert,
}

/// The kinds of the changes of the line diff from `old` to `new`, in order.
pub uninterp spec fn line_changes_of(old: Seq<char>, new: Seq<char>) -> Seq<LineChange>;

/// `similar::TextDiff::from_lines(old, new).iter_all_changes()`, each change
/// by its tag.  Claimed of it: the result is a function of the two texts,
/// named `line_changes_of`; the diff of two equal texts holds only `Equal`
/// changes, and that of two different texts some insert or delete (its
/// changes rebuild both texts, and no deadline is set).
#[verifier::external_body]
fn line_changes(old: &str, new: &str) -> (r: Vec<LineChange>)
    ensures
        r@ == line_changes_of(old@, new@),
        old@ == new@ ==> forall|i: int| 0 <= i < r@.len() ==> #[trigger] r@[i] == LineChange::Equal,
        old@ != new@ ==> exists|i: int| 0 <= i < r@.len() && #[trigger] r@[i] != LineChange::Equal,
{
    let mut out: Vec<LineChange> = Vec::new();
    for c in similar::TextDiff::from_lines(old, new).iter_all_changes() {
        out.push(match c.tag() {
            similar::ChangeTag::Equal => LineChange::Equal,
            similar::ChangeTag::Delete => LineChange::Delete,
            similar::ChangeTag::Insert => LineChange::Insert,
        });
    }
    out
}

/// Whether any change is an insert or a delete.
pub fn has_changes(changes: &Vec<LineChange>) -> (b: bool)
    ensures
        b == exists|i: int| 0 <= i < changes@.len() && #[trigger] changes@[i] != LineChange::Equal,
{
    let mut i: usize = 0;
    while i < changes.len()
        invariant
            i <= changes.len(),
            forall|j: int| 0 <= j < i ==> #[trigger] changes@[j] == LineChange::Equal,
        decreases changes.len() - i,
    {
        match changes[i] {
            LineChange::Equal => {},
            _ => {
                return true;
            },
        }
        i += 1;
    }
    false
}

/// The preview text: each hunk under a `---`/`+++` header naming the path.
pub open spec fn preview_text(path: Seq<char>, hunks: Seq<Seq<char>>) -> Seq<char>
    decreases hunks.len(),
{
    if hunks.len() == 0 {
        Seq::empty()
    } else {
        preview_text(path, hunks.drop_last()) + "--- "@ + path + "\n+++ "@ + path + "\n"@ + hunks.last()
    }
}

/// Assemble the preview of hunks for a path.
pub fn assemble_preview(path: &str, hunks: &Vec<String>) -> (s: String)
    ensures
        s@ == preview_text(path@, str_views(hunks@)),
{
    let mut s = String::new();
    let mut i: usize = 0;
    while i < hunks.len()
        invariant
            i <= hunks.len(),
            s@ == preview_text(path@, str_views(hunks@.take(i as int))),
        decreases hunks.len() - i,
    {
        assert(str_views(hunks@.take(i + 1)).drop_last() =~= str_views(hunks@.take(i as int)));
        s = s.concat("--- ").concat(path).concat("\n+++ ").concat(path).concat("\n").concat(
            hunks[i].as_str(),
        );
        i += 1;
    }
    assert(hunks@.take(hunks.len() as int) =~= hunks@);
    s
}

/// The preview of replacing `old` by `new` at `path`: the assembled hunks,
/// and whether anything changes.
pub fn preview_diff(path: &str, old: &str, new: &str) -> (r: (String, bool))
    ensures
        r.0@ == preview_text(path@, unified_hunks_of(old@, new@)),
        r.1 == (old@ != new@),
        old@ == new@ ==> r.0@.len() == 0,
{
    let hunks = unified_hunks(old, new);
    let changes = line_changes(old, new);
    (assemble_preview(path, &hunks), has_changes(&changes))
}

} // verus!
