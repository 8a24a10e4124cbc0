//! Validators for git arguments and parsers for git's porcelain output.
use vstd::prelude::*;

use crate::text::{
    alnum, contains_pair, has_pair, is_alnum,
    after_char, after_prefix, before_char, find_char, lemma_find_char, chars_of, equals, has_prefix, is_hex, lines_of, parse_i64,
    has_char, contains_char, trim, trimmed, parse_i64_spec, parse_u64, parse_u64_spec, same_chars, split_words, words_of, hex, slice_of, split_at_char, split_lines, starts_with, string_from, string_of,
    strip_prefix, trim_lead, trim_leading, decimal, lemma_decimal_digits, lemma_find_char_at,
    unsigned_body, all_digits, is_digit,
};

verus! {

// ── `git worktree list --porcelain` ─────────────────────────────────────────

/// One worktree parsed from `git worktree list --porcelain` output.
#[derive(Debug, Clone)]
pub struct WorktreeRow {
    pub path: String,
    pub branch: String,
    pub head_sha: String,
    pub locked: bool,
}

/// A worktree row as character sequences.
pub struct WorktreeRowView {
    pub path: Seq<char>,
    pub branch: Seq<char>,
    pub head_sha: Seq<char>,
    pub locked: bool,
}

impl View for WorktreeRow {
    type V = WorktreeRowView;

    open spec fn view(&self) -> WorktreeRowView {
        WorktreeRowView {
            path: self.path@,
            branch: self.branch@,
            head_sha: self.head_sha@,
            locked: self.locked,
        }
    }
}

/// Rows finished so far, and the row being filled.
pub type WorktreeState = (Seq<WorktreeRowView>, Option<WorktreeRowView>);

/// The effect of one porcelain line.
pub open spec fn worktree_step(st: WorktreeState, line: Seq<char>) -> WorktreeState {
    let (rows, cur) = st;
    if has_prefix(line, "worktree "@) {
        let rows2 = match cur {
            Some(w) => rows.push(w),
            None => rows,
        };
        (
            rows2,
            Some(
                WorktreeRowView {
                    path: after_prefix(line, "worktree "@),
                    branch: Seq::empty(),
                    head_sha: Seq::empty(),
                    locked: false,
                },
            ),
        )
    } else if has_prefix(line, "HEAD "@) {
        match cur {
            Some(w) => (rows, Some(WorktreeRowView { head_sha: after_prefix(line, "HEAD "@), ..w })),
            None => st,
        }
    } else if has_prefix(line, "branch "@) {
        let b = after_prefix(line, "branch "@);
        let name = if has_prefix(b, "refs/heads/"@) {
            after_prefix(b, "refs/heads/"@)
        } else {
            b
        };
        match cur {
            Some(w) => (rows, Some(WorktreeRowView { branch: name, ..w })),
            None => st,
        }
    } else if line == "detached"@ {
        match cur {
            Some(w) => (rows, Some(WorktreeRowView { branch: "(detached)"@, ..w })),
            None => st,
        }
    } else if line == "locked"@ || has_prefix(line, "locked "@) {
        match cur {
            Some(w) => (rows, Some(WorktreeRowView { locked: true, ..w })),
            None => st,
        }
    } else {
        st
    }
}

/// The state after reading `lines` in order.
pub open spec fn worktree_fold(lines: Seq<Seq<char>>) -> WorktreeState
    decreases lines.len(),
{
    if lines.len() == 0 {
        (Seq::empty(), None)
    } else {
        worktree_step(worktree_fold(lines.drop_last()), lines.last())
    }
}

/// The rows that `git worktree list --porcelain` output `text` describes: one
/// per `worktree <path>` line, filled by the `HEAD`, `branch`, `detached` and
/// `locked` lines that follow it.
pub open spec fn worktree_rows(text: Seq<char>) -> Seq<WorktreeRowView> {
    let (rows, cur) = worktree_fold(lines_of(text));
    match cur {
        Some(w) => rows.push(w),
        None => rows,
    }
}

pub open spec fn opt_row_view(o: Option<WorktreeRow>) -> Option<WorktreeRowView> {
    match o {
        Some(w) => Some(w@),
        None => None,
    }
}

/// Parse `git worktree list --porcelain` output into rows.
pub fn parse_worktree_porcelain(stdout: &str) -> (rows: Vec<WorktreeRow>)
    ensures
        rows.len() == worktree_rows(stdout@).len(),
        forall|i: int| 0 <= i < rows.len() ==> #[trigger] rows[i]@ == worktree_rows(stdout@)[i],
{
    let text = chars_of(stdout);
    let lines = split_lines(&text);
    let ghost ls = lines_of(stdout@);
    let mut result: Vec<WorktreeRow> = Vec::new();
    let mut current: Option<WorktreeRow> = None;
    let mut k: usize = 0;
    while k < lines.len()
        invariant
            k <= lines.len() == ls.len(),
            forall|j: int| 0 <= j < lines.len() ==> #[trigger] lines[j]@ == ls[j],
            result.len() == worktree_fold(ls.take(k as int)).0.len(),
            forall|i: int|
                0 <= i < result.len() ==> #[trigger] result[i]@ == worktree_fold(
                    ls.take(k as int),
                ).0[i],
            opt_row_view(current) == worktree_fold(ls.take(k as int)).1,
        decreases lines.len() - k,
    {
        let line = &lines[k];
        let ghost before = worktree_fold(ls.take(k as int));
        assert(ls.take(k + 1).drop_last() =~= ls.take(k as int));
        assert(ls.take(k + 1).last() == line@);
        if let Some(path) = strip_prefix(line, "worktree ") {
            if let Some(wt) = current {
                result.push(wt);
            }
            current = Some(
                WorktreeRow {
                    path: string_of(&path),
                    branch: String::new(),
                    head_sha: String::new(),
                    locked: false,
                },
            );
        } else if let Some(sha) = strip_prefix(line, "HEAD ") {
            if let Some(wt) = current {
                current = Some(WorktreeRow { head_sha: string_of(&sha), ..wt });
            }
        } else if let Some(branch) = strip_prefix(line, "branch ") {
            if let Some(wt) = current {
                let name = match strip_prefix(&branch, "refs/heads/") {
                    Some(n) => n,
                    None => branch,
                };
                current = Some(WorktreeRow { branch: string_of(&name), ..wt });
            }
        } else if equals(line, "detached") {
            if let Some(wt) = current {
                current = Some(WorktreeRow { branch: String::from_str("(detached)"), ..wt });
            }
        } else if equals(line, "locked") || starts_with(line, "locked ") {
            if let Some(wt) = current {
                current = Some(WorktreeRow { locked: true, ..wt });
            }
        }
        k += 1;
    }
    assert(ls.take(ls.len() as int) =~= ls);
    if let Some(wt) = current {
        result.push(wt);
    }
    result
}


// ── Unified diffs ────────────────────────────────────────────────────────────

/// `(start, count)` from a hunk range `start[,count]`: a part that does not
/// parse as a number gives 0 for the start and 1 for the count.
pub open spec fn hunk_range(s: Seq<char>) -> (u64, u64) {
    let start = match parse_u64_spec(before_char(s, ',')) {
        Some(n) => n,
        None => 0,
    };
    let count = match after_char(s, ',') {
        Some(r) => match parse_u64_spec(r) {
            Some(n) => n,
            None => 1,
        },
        None => 1,
    };
    (start, count)
}

fn hunk_range_of(v: &Vec<char>) -> (r: (u64, u64))
    ensures
        r == hunk_range(v@),
{
    let (head, tail) = split_at_char(v, ',');
    let start = match parse_u64(&head) {
        Some(n) => n,
        None => 0,
    };
    let count = match tail {
        Some(t) => match parse_u64(&t) {
            Some(n) => n,
            None => 1,
        },
        None => 1,
    };
    (start, count)
}

/// Parse a hunk range such as `10,5` (start 10, count 5) or `7` (count 1).
pub fn parse_hunk_range(s: &str) -> (r: (u64, u64))
    ensures
        r == hunk_range(s@),
{
    hunk_range_of(&chars_of(s))
}

/// A printed hunk range reads back: `start,count` gives the pair, and a
/// lone `start` gives a count of one.
pub proof fn hunk_range_round_trip(a: u64, b: u64)
    ensures
        hunk_range(decimal(a as nat) + seq![','] + decimal(b as nat)) == (a, b),
        hunk_range(decimal(a as nat)) == (a, 1u64),
{
    let da = decimal(a as nat);
    let db = decimal(b as nat);
    lemma_decimal_digits(a as nat);
    lemma_decimal_digits(b as nat);
    assert(unsigned_body(da) == da);
    assert(unsigned_body(db) == db);
    let s = da + seq![','] + db;
    assert forall|j: int| 0 <= j < da.len() implies s[j] != ',' by {
        assert(s[j] == da[j]);
        assert(is_digit(da[j]));
    }
    assert(s[da.len() as int] == ',');
    lemma_find_char_at(s, ',', da.len() as int);
    assert(before_char(s, ',') =~= da);
    assert(s.subrange(da.len() as int + 1, s.len() as int) =~= db);
    assert(after_char(s, ',') == Some(db));
    assert forall|j: int| 0 <= j < da.len() implies da[j] != ',' by {
        assert(is_digit(da[j]));
    }
    lemma_find_char_at(da, ',', da.len() as int);
    assert(before_char(da, ',') =~= da);
}

/// The kind of a line inside a hunk.
#[derive(Debug, Clone, Copy, PartialEq, Eq)]
pub enum DiffLineKind {
    Add,
    Del,
    Ctx,
}

/// One line of a hunk: added lines carry their new line number, removed
/// lines their old one, context lines both.
#[derive(Debug, Clone)]
pub struct DiffLine {
    pub kind: DiffLineKind,
    pub content: String,
    pub old_n: Option<u64>,
    pub new_n: Option<u64>,
}

pub struct DiffLineView {
    pub kind: DiffLineKind,
    pub content: Seq<char>,
    pub old_n: Option<int>,
    pub new_n: Option<int>,
}

pub open spec fn opt_int(o: Option<u64>) -> Option<int> {
    match o {
        Some(n) => Some(n as int),
        None => None,
    }
}

impl View for DiffLine {
    type V = DiffLineView;

    open spec fn view(&self) -> DiffLineView {
        DiffLineView {
            kind: self.kind,
            content: self.content@,
            old_n: opt_int(self.old_n),
            new_n: opt_int(self.new_n),
        }
    }
}

/// One hunk: its `@@` header line, the ranges it announces, and its lines.
#[derive(Debug, Clone)]
pub struct DiffHunk {
    pub header: String,
    pub old_start: u64,
    pub old_count: u64,
    pub new_start: u64,
    pub new_count: u64,
    pub lines: Vec<DiffLine>,
}

pub struct DiffHunkView {
    pub header: Seq<char>,
    pub old_start: int,
    pub old_count: int,
    pub new_start: int,
    pub new_count: int,
    pub lines: Seq<DiffLineView>,
}

pub open spec fn line_views(ls: Seq<DiffLine>) -> Seq<DiffLineView> {
    ls.map_values(|l: DiffLine| l@)
}

impl View for DiffHunk {
    type V = DiffHunkView;

    open spec fn view(&self) -> DiffHunkView {
        DiffHunkView {
            header: self.header@,
            old_start: self.old_start as int,
            old_count: self.old_count as int,
            new_start: self.new_start as int,
            new_count: self.new_count as int,
            lines: line_views(self.lines@),
        }
    }
}

/// Totals over a diff.
#[derive(Debug, Clone, Copy, PartialEq, Eq)]
pub struct DiffStats {
    pub added: u64,
    pub removed: u64,
    pub hunks: u64,
}

/// Where the diff parser stands after some lines.
pub struct DiffState {
    pub hunks: Seq<DiffHunkView>,
    pub lines: Seq<DiffLineView>,
    pub header: Seq<char>,
    pub old_start: int,
    pub old_count: int,
    pub new_start: int,
    pub new_count: int,
    pub old_n: int,
    pub new_n: int,
    pub added: int,
    pub removed: int,
}

pub open spec fn diff_start() -> DiffState {
    DiffState {
        hunks: Seq::empty(),
        lines: Seq::empty(),
        header: Seq::empty(),
        old_start: 0,
        old_count: 0,
        new_start: 0,
        new_count: 0,
        old_n: 0,
        new_n: 0,
        added: 0,
        removed: 0,
    }
}

/// The hunk that the state is filling.
pub open spec fn open_hunk(st: DiffState) -> DiffHunkView {
    DiffHunkView {
        header: st.header,
        old_start: st.old_start,
        old_count: st.old_count,
        new_start: st.new_start,
        new_count: st.new_count,
        lines: st.lines,
    }
}

/// The old and new ranges of an `@@ -a,b +c,d @@` header line.
pub open spec fn header_ranges(line: Seq<char>) -> ((u64, u64), (u64, u64)) {
    let rest = after_prefix(line, "@@ "@);
    let first = before_char(rest, ' ');
    let second = match after_char(rest, ' ') {
        Some(r) => before_char(r, ' '),
        None => Seq::empty(),
    };
    (hunk_range(trim_lead(first, '-')), hunk_range(trim_lead(second, '+')))
}

/// The effect of one diff line: an `@@ ` line closes the open hunk (if any)
/// and opens a new one; `+`/`-`/` ` lines (but not `+++`/`---`) add a line
/// and advance the line numbers; anything else is skipped.
pub open spec fn diff_step(st: DiffState, line: Seq<char>) -> DiffState {
    if has_prefix(line, "@@ "@) {
        let (old_r, new_r) = header_ranges(line);
        DiffState {
            hunks: if st.header.len() > 0 {
                st.hunks.push(open_hunk(st))
            } else {
                st.hunks
            },
            lines: if st.header.len() > 0 {
                Seq::empty()
            } else {
                st.lines
            },
            header: line,
            old_start: old_r.0 as int,
            old_count: old_r.1 as int,
            new_start: new_r.0 as int,
            new_count: new_r.1 as int,
            old_n: old_r.0 as int,
            new_n: new_r.0 as int,
            ..st
        }
    } else if has_prefix(line, "+"@) && !has_prefix(line, "+++"@) {
        DiffState {
            lines: st.lines.push(
                DiffLineView {
                    kind: DiffLineKind::Add,
                    content: line.drop_first(),
                    old_n: None,
                    new_n: Some(st.new_n),
                },
            ),
            new_n: st.new_n + 1,
            added: st.added + 1,
            ..st
        }
    } else if has_prefix(line, "-"@) && !has_prefix(line, "---"@) {
        DiffState {
            lines: st.lines.push(
                DiffLineView {
                    kind: DiffLineKind::Del,
                    content: line.drop_first(),
                    old_n: Some(st.old_n),
                    new_n: None,
                },
            ),
            old_n: st.old_n + 1,
            removed: st.removed + 1,
            ..st
        }
    } else if has_prefix(line, " "@) {
        DiffState {
            lines: st.lines.push(
                DiffLineView {
                    kind: DiffLineKind::Ctx,
                    content: line.drop_first(),
                    old_n: Some(st.old_n),
                    new_n: Some(st.new_n),
                },
            ),
            old_n: st.old_n + 1,
            new_n: st.new_n + 1,
            ..st
        }
    } else {
        st
    }
}

pub open spec fn diff_fold(lines: Seq<Seq<char>>) -> DiffState
    decreases lines.len(),
{
    if lines.len() == 0 {
        diff_start()
    } else {
        diff_step(diff_fold(lines.drop_last()), lines.last())
    }
}

/// The hunks of the unified diff `raw`.
pub open spec fn diff_hunks(raw: Seq<char>) -> Seq<DiffHunkView> {
    let st = diff_fold(lines_of(raw));
    if st.header.len() > 0 {
        st.hunks.push(open_hunk(st))
    } else {
        st.hunks
    }
}

/// The line counters stay within 64 bits.
pub open spec fn counters_fit(st: DiffState) -> bool {
    st.old_n <= u64::MAX && st.new_n <= u64::MAX && st.added <= u64::MAX && st.removed
        <= u64::MAX
}

/// No line counter of the diff parser passes `u64::MAX` while reading `raw`
/// (a hunk that starts at the top of the range and goes on would).
pub open spec fn diff_fits(raw: Seq<char>) -> bool {
    forall|k: int|
        0 <= k <= lines_of(raw).len() ==> counters_fit(#[trigger] diff_fold(lines_of(raw).take(k)))
}

/// Build the record of a finished hunk.
pub fn flush_hunk(
    header: String,
    old_start: u64,
    old_count: u64,
    new_start: u64,
    new_count: u64,
    lines: Vec<DiffLine>,
) -> (h: DiffHunk)
    ensures
        h.header@ == header@,
        h.old_start == old_start,
        h.old_count == old_count,
        h.new_start == new_start,
        h.new_count == new_count,
        h.lines@ == lines@,
{
    DiffHunk { header, old_start, old_count, new_start, new_count, lines }
}

/// Parse unified diff text into hunks and totals; `None` when a line counter
/// would pass `u64::MAX`.
pub fn parse_unified_diff_checked(raw: &str) -> (r: Option<(Vec<DiffHunk>, DiffStats)>)
    ensures
        r is Some <==> diff_fits(raw@),
        r is Some ==> ({
            let (hunks, stats) = r->0;
            let st = diff_fold(lines_of(raw@));
            &&& hunks.len() == diff_hunks(raw@).len()
            &&& forall|i: int| 0 <= i < hunks.len() ==> #[trigger] hunks[i]@ == diff_hunks(raw@)[i]
            &&& stats.added == st.added
            &&& stats.removed == st.removed
            &&& stats.hunks == hunks.len()
        }),
{
    let text = chars_of(raw);
    let lines = split_lines(&text);
    let ghost ls = lines_of(raw@);
    let mut hunks: Vec<DiffHunk> = Vec::new();
    let mut current_lines: Vec<DiffLine> = Vec::new();
    let mut current_header: Vec<char> = Vec::new();
    let mut current_old_start: u64 = 0;
    let mut current_old_count: u64 = 0;
    let mut current_new_start: u64 = 0;
    let mut current_new_count: u64 = 0;
    let mut old_n: u64 = 0;
    let mut new_n: u64 = 0;
    let mut total_added: u64 = 0;
    let mut total_removed: u64 = 0;
    let mut k: usize = 0;
    assert(ls.take(0) =~= Seq::<Seq<char>>::empty());
    while k < lines.len()
        invariant
            k <= lines.len() == ls.len(),
            ls == lines_of(raw@),
            forall|j: int| 0 <= j < lines.len() ==> #[trigger] lines[j]@ == ls[j],
            forall|j: int| 0 <= j <= k ==> counters_fit(#[trigger] diff_fold(ls.take(j))),
            ({
                let st = diff_fold(ls.take(k as int));
                &&& hunks.len() == st.hunks.len()
                &&& forall|i: int| 0 <= i < hunks.len() ==> #[trigger] hunks[i]@ == st.hunks[i]
                &&& line_views(current_lines@) == st.lines
                &&& current_header@ == st.header
                &&& current_old_start == st.old_start
                &&& current_old_count == st.old_count
                &&& current_new_start == st.new_start
                &&& current_new_count == st.new_count
                &&& old_n == st.old_n
                &&& new_n == st.new_n
                &&& total_added == st.added
                &&& total_removed == st.removed
            }),
        decreases lines.len() - k,
    {
        let line = &lines[k];
        let ghost st = diff_fold(ls.take(k as int));
        assert(ls.take(k + 1).drop_last() =~= ls.take(k as int));
        assert(ls.take(k + 1).last() == line@);
        if starts_with(line, "@@ ") {
            if current_header.len() > 0 {
                let done = flush_hunk(
                    string_of(&current_header),
                    current_old_start,
                    current_old_count,
                    current_new_start,
                    current_new_count,
                    current_lines,
                );
                hunks.push(done);
                current_lines = Vec::new();
                assert(line_views(current_lines@) =~= Seq::<DiffLineView>::empty());
            }
            current_header = slice_of(line, 0, line.len());
            assert(current_header@ =~= line@);
            let rest = slice_of(line, "@@ ".unicode_len(), line.len());
            let (first, after) = split_at_char(&rest, ' ');
            let second = match after {
                Some(r) => split_at_char(&r, ' ').0,
                None => Vec::new(),
            };
            assert(second@ =~= (match after_char(rest@, ' ') {
                Some(r) => before_char(r, ' '),
                None => Seq::<char>::empty(),
            }));
            let old_r = hunk_range_of(&trim_leading(&first, '-'));
            let new_r = hunk_range_of(&trim_leading(&second, '+'));
            current_old_start = old_r.0;
            current_old_count = old_r.1;
            current_new_start = new_r.0;
            current_new_count = new_r.1;
            old_n = old_r.0;
            new_n = new_r.0;
        } else if starts_with(line, "+") && !starts_with(line, "+++") {
            proof {
                reveal_strlit("+");
            }
            if new_n == u64::MAX || total_added == u64::MAX {
                assert(!counters_fit(diff_fold(ls.take(k + 1))));
                return None;
            }
            let dl = DiffLine {
                kind: DiffLineKind::Add,
                content: string_from(line, 1, line.len()),
                old_n: None,
                new_n: Some(new_n),
            };
            assert(dl@.content =~= line@.drop_first());
            current_lines.push(dl);
            assert(line_views(current_lines@) =~= st.lines.push(dl@));
            new_n += 1;
            total_added += 1;
        } else if starts_with(line, "-") && !starts_with(line, "---") {
            proof {
                reveal_strlit("-");
            }
            if old_n == u64::MAX || total_removed == u64::MAX {
                assert(!counters_fit(diff_fold(ls.take(k + 1))));
                return None;
            }
            let dl = DiffLine {
                kind: DiffLineKind::Del,
                content: string_from(line, 1, line.len()),
                old_n: Some(old_n),
                new_n: None,
            };
            assert(dl@.content =~= line@.drop_first());
            current_lines.push(dl);
            assert(line_views(current_lines@) =~= st.lines.push(dl@));
            old_n += 1;
            total_removed += 1;
        } else if starts_with(line, " ") {
            proof {
                reveal_strlit(" ");
            }
            if old_n == u64::MAX || new_n == u64::MAX {
                assert(!counters_fit(diff_fold(ls.take(k + 1))));
                return None;
            }
            let dl = DiffLine {
                kind: DiffLineKind::Ctx,
                content: string_from(line, 1, line.len()),
                old_n: Some(old_n),
                new_n: Some(new_n),
            };
            assert(dl@.content =~= line@.drop_first());
            current_lines.push(dl);
            assert(line_views(current_lines@) =~= st.lines.push(dl@));
            old_n += 1;
            new_n += 1;
        }
        k += 1;
    }
    assert(ls.take(ls.len() as int) =~= ls);
    if current_header.len() > 0 {
        let done = flush_hunk(
            string_of(&current_header),
            current_old_start,
            current_old_count,
            current_new_start,
            current_new_count,
            current_lines,
        );
        hunks.push(done);
    }
    let count = hunks.len() as u64;
    Some((hunks, DiffStats { added: total_added, removed: total_removed, hunks: count }))
}


/// Parse unified diff text into hunks with per-line annotations, and the
/// totals of added lines, removed lines and hunks.
pub fn parse_unified_diff(raw: &str) -> (r: (Vec<DiffHunk>, DiffStats))
    requires
        diff_fits(raw@),
    ensures
        r.0.len() == diff_hunks(raw@).len(),
        forall|i: int| 0 <= i < r.0.len() ==> #[trigger] r.0[i]@ == diff_hunks(raw@)[i],
        r.1.added == diff_fold(lines_of(raw@)).added,
        r.1.removed == diff_fold(lines_of(raw@)).removed,
        r.1.hunks == r.0.len(),
{
    match parse_unified_diff_checked(raw) {
        Some(r) => r,
        None => {
            proof {
                assert(false);
            }
            (Vec::new(), DiffStats { added: 0, removed: 0, hunks: 0 })
        },
    }
}


// ── `git blame --porcelain` ──────────────────────────────────────────────────

/// A porcelain blame header line: 40 hexadecimal characters, then a space.
pub open spec fn blame_hash_line(line: Seq<char>) -> bool {
    after_char(line, ' ') is Some && before_char(line, ' ').len() == 40 && forall|i: int|
        0 <= i < 40 ==> is_hex(#[trigger] line[i])
}

/// Return true if `line` is a porcelain blame hash header: 40 hex chars then a space.
pub fn is_blame_hash_line(line: &str) -> (b: bool)
    ensures
        b == blame_hash_line(line@),
{
    let v = chars_of(line);
    let (hash, rest) = split_at_char(&v, ' ');
    if rest.is_none() || hash.len() != 40 {
        return false;
    }
    proof {
        lemma_find_char(v@, ' ');
    }
    let mut i: usize = 0;
    while i < 40
        invariant
            hash@ == before_char(v@, ' '),
            hash.len() == 40,
            find_char(v@, ' ') == 40,
            40 < v@.len(),
            v@ == line@,
            i <= 40,
            forall|j: int| 0 <= j < i ==> is_hex(#[trigger] line@[j]),
        decreases 40 - i,
    {
        assert(hash@[i as int] == v@[i as int]);
        if !hex(hash[i]) {
            return false;
        }
        i += 1;
    }
    true
}

/// The commit that a blamed line comes from.
#[derive(Debug, Clone)]
pub struct BlameCommit {
    pub hash: String,
    pub author_name: String,
    pub author_time: i64,
    pub summary: String,
}

/// One blamed line: its final line number, its content and its commit.
#[derive(Debug, Clone)]
pub struct BlameLine {
    pub n: u64,
    pub content: String,
    pub commit: BlameCommit,
}

pub struct BlameLineView {
    pub n: u64,
    pub content: Seq<char>,
    pub hash: Seq<char>,
    pub author_name: Seq<char>,
    pub author_time: i64,
    pub summary: Seq<char>,
}

impl View for BlameLine {
    type V = BlameLineView;

    open spec fn view(&self) -> BlameLineView {
        BlameLineView {
            n: self.n,
            content: self.content@,
            hash: self.commit.hash@,
            author_name: self.commit.author_name@,
            author_time: self.commit.author_time,
            summary: self.commit.summary@,
        }
    }
}

/// A cached commit: hash, author, author time, summary.
pub type CommitInfo = (Seq<char>, Seq<char>, i64, Seq<char>);

/// Index of the first cache entry for `hash` (the cache's length when none).
pub open spec fn cache_index(cache: Seq<CommitInfo>, hash: Seq<char>) -> int
    decreases cache.len(),
{
    if cache.len() == 0 {
        0
    } else if cache[0].0 == hash {
        0
    } else {
        1 + cache_index(cache.drop_first(), hash)
    }
}

pub struct BlameState {
    pub out: Seq<BlameLineView>,
    pub cache: Seq<CommitInfo>,
    pub hash: Seq<char>,
    pub final_line: u64,
    pub author: Seq<char>,
    pub author_time: i64,
    pub summary: Seq<char>,
}

pub open spec fn blame_start() -> BlameState {
    BlameState {
        out: Seq::empty(),
        cache: Seq::empty(),
        hash: Seq::empty(),
        final_line: 0,
        author: Seq::empty(),
        author_time: 0,
        summary: Seq::empty(),
    }
}

/// The effect of one porcelain line.  A header line names the current commit
/// and the line's final number; `author`, `author-time` and `summary` lines
/// fill the pending commit fields; a tab-prefixed content line records the
/// pending fields for a commit seen for the first time, emits the line with
/// the commit's recorded fields, and clears the pending fields.
pub open spec fn blame_step(st: BlameState, line: Seq<char>) -> BlameState {
    if has_prefix(line, "\t"@) {
        let cache = if st.hash.len() > 0 && cache_index(st.cache, st.hash) == st.cache.len() {
            st.cache.push((st.hash, st.author, st.author_time, st.summary))
        } else {
            st.cache
        };
        let i = cache_index(cache, st.hash);
        let out = if i < cache.len() {
            st.out.push(
                BlameLineView {
                    n: st.final_line,
                    content: after_prefix(line, "\t"@),
                    hash: st.hash,
                    author_name: cache[i].1,
                    author_time: cache[i].2,
                    summary: cache[i].3,
                },
            )
        } else {
            st.out
        };
        BlameState {
            out,
            cache,
            author: Seq::empty(),
            author_time: 0,
            summary: Seq::empty(),
            ..st
        }
    } else if blame_hash_line(line) {
        let w = words_of(line);
        BlameState {
            hash: if w.len() > 0 {
                w[0]
            } else {
                Seq::empty()
            },
            final_line: if w.len() > 2 {
                match parse_u64_spec(w[2]) {
                    Some(n) => n,
                    None => 0,
                }
            } else {
                0
            },
            ..st
        }
    } else if has_prefix(line, "author "@) {
        BlameState { author: after_prefix(line, "author "@), ..st }
    } else if has_prefix(line, "author-time "@) {
        BlameState {
            author_time: match parse_i64_spec(after_prefix(line, "author-time "@)) {
                Some(t) => t,
                None => 0,
            },
            ..st
        }
    } else if has_prefix(line, "summary "@) {
        BlameState { summary: after_prefix(line, "summary "@), ..st }
    } else {
        st
    }
}

pub open spec fn blame_fold(lines: Seq<Seq<char>>) -> BlameState
    decreases lines.len(),
{
    if lines.len() == 0 {
        blame_start()
    } else {
        blame_step(blame_fold(lines.drop_last()), lines.last())
    }
}

/// The blamed lines that `git blame --porcelain` output `raw` describes.
pub open spec fn blame_lines(raw: Seq<char>) -> Seq<BlameLineView> {
    blame_fold(lines_of(raw)).out
}

pub struct CacheEntry {
    pub hash: Vec<char>,
    pub author: String,
    pub author_time: i64,
    pub summary: String,
}

pub open spec fn cache_view(c: Seq<CacheEntry>) -> Seq<CommitInfo> {
    c.map_values(|e: CacheEntry| (e.hash@, e.author@, e.author_time, e.summary@))
}

fn cache_lookup(cache: &Vec<CacheEntry>, hash: &Vec<char>) -> (i: usize)
    ensures
        i == cache_index(cache_view(cache@), hash@),
{
    let ghost cv = cache_view(cache@);
    let mut i: usize = 0;
    while i < cache.len()
        invariant
            cv == cache_view(cache@),
            i <= cache.len(),
            forall|j: int| 0 <= j < i ==> cv[j].0 != hash@,
        decreases cache.len() - i,
    {
        if same_chars(&cache[i].hash, hash) {
            proof {
                lemma_cache_index_at(cv, hash@, i as int);
            }
            return i;
        }
        i += 1;
    }
    proof {
        lemma_cache_index_at(cv, hash@, i as int);
    }
    i
}

proof fn lemma_cache_index_at(c: Seq<CommitInfo>, h: Seq<char>, i: int)
    requires
        0 <= i <= c.len(),
        i < c.len() ==> c[i].0 == h,
        forall|j: int| 0 <= j < i ==> c[j].0 != h,
    ensures
        cache_index(c, h) == i,
    decreases c.len(),
{
    if c.len() > 0 && c[0].0 != h {
        assert forall|j: int| 0 <= j < i - 1 implies c.drop_first()[j].0 != h by {
            assert(c.drop_first()[j] == c[j + 1]);
        }
        lemma_cache_index_at(c.drop_first(), h, i - 1);
    }
}

proof fn lemma_cache_index_bound(c: Seq<CommitInfo>, h: Seq<char>)
    ensures
        0 <= cache_index(c, h) <= c.len(),
        cache_index(c, h) < c.len() ==> c[cache_index(c, h)].0 == h,
    decreases c.len(),
{
    if c.len() > 0 && c[0].0 != h {
        lemma_cache_index_bound(c.drop_first(), h);
        if cache_index(c, h) < c.len() {
            assert(c[cache_index(c, h)] == c.drop_first()[cache_index(c.drop_first(), h)]);
        }
    }
}

/// Parse `git blame --porcelain` output into per-line records, each with the
/// metadata of its commit as first seen.
pub fn parse_blame_porcelain(raw: &str) -> (out: Vec<BlameLine>)
    ensures
        out.len() == blame_lines(raw@).len(),
        forall|i: int| 0 <= i < out.len() ==> #[trigger] out[i]@ == blame_lines(raw@)[i],
{
    let text = chars_of(raw);
    let lines = split_lines(&text);
    let ghost ls = lines_of(raw@);
    let mut lines_out: Vec<BlameLine> = Vec::new();
    let mut cache: Vec<CacheEntry> = Vec::new();
    let mut current_hash: Vec<char> = Vec::new();
    let mut current_final_line: u64 = 0;
    let mut pending_author: Vec<char> = Vec::new();
    let mut pending_author_time: i64 = 0;
    let mut pending_summary: Vec<char> = Vec::new();
    let mut k: usize = 0;
    while k < lines.len()
        invariant
            k <= lines.len() == ls.len(),
            ls == lines_of(raw@),
            forall|j: int| 0 <= j < lines.len() ==> #[trigger] lines[j]@ == ls[j],
            ({
                let st = blame_fold(ls.take(k as int));
                &&& lines_out.len() == st.out.len()
                &&& forall|i: int| 0 <= i < lines_out.len() ==> #[trigger] lines_out[i]@ == st.out[i]
                &&& cache_view(cache@) == st.cache
                &&& current_hash@ == st.hash
                &&& current_final_line == st.final_line
                &&& pending_author@ == st.author
                &&& pending_author_time == st.author_time
                &&& pending_summary@ == st.summary
            }),
        decreases lines.len() - k,
    {
        let line = &lines[k];
        let ghost st = blame_fold(ls.take(k as int));
        assert(ls.take(k + 1).drop_last() =~= ls.take(k as int));
        assert(ls.take(k + 1).last() == line@);
        if let Some(content) = strip_prefix(line, "\t") {
            if current_hash.len() > 0 {
                let at = cache_lookup(&cache, &current_hash);
                if at == cache.len() {
                    let entry = CacheEntry {
                        hash: slice_of(&current_hash, 0, current_hash.len()),
                        author: string_of(&pending_author),
                        author_time: pending_author_time,
                        summary: string_of(&pending_summary),
                    };
                    assert(entry.hash@ =~= current_hash@);
                    cache.push(entry);
                    assert(cache_view(cache@) =~= st.cache.push(
                        (st.hash, st.author, st.author_time, st.summary),
                    ));
                }
            }
            let at = cache_lookup(&cache, &current_hash);
            proof {
                lemma_cache_index_bound(cache_view(cache@), current_hash@);
            }
            if at < cache.len() {
                let entry = &cache[at];
                let bl = BlameLine {
                    n: current_final_line,
                    content: string_of(&content),
                    commit: BlameCommit {
                        hash: string_of(&current_hash),
                        author_name: entry.author.clone(),
                        author_time: entry.author_time,
                        summary: entry.summary.clone(),
                    },
                };
                lines_out.push(bl);
            }
            pending_author = Vec::new();
            pending_author_time = 0;
            pending_summary = Vec::new();
        } else if is_blame_hash_line(&string_of(line).as_str()) {
            let words = split_words(line);
            current_hash = if words.len() > 0 {
                slice_of(&words[0], 0, words[0].len())
            } else {
                Vec::new()
            };
            assert(words.len() > 0 ==> current_hash@ =~= words[0]@);
            current_final_line = if words.len() > 2 {
                match parse_u64(&words[2]) {
                    Some(n) => n,
                    None => 0,
                }
            } else {
                0
            };
        } else if let Some(rest) = strip_prefix(line, "author ") {
            pending_author = rest;
        } else if let Some(rest) = strip_prefix(line, "author-time ") {
            pending_author_time = match parse_i64(&rest) {
                Some(t) => t,
                None => 0,
            };
        } else if let Some(rest) = strip_prefix(line, "summary ") {
            pending_summary = rest;
        }
        k += 1;
    }
    assert(ls.take(ls.len() as int) =~= ls);
    lines_out
}


// ── `git log --follow --numstat` ─────────────────────────────────────────────

/// One commit of a file's history with its line totals.
#[derive(Debug, Clone)]
pub struct LogFileEntry {
    pub hash: String,
    pub summary: String,
    pub author_name: String,
    pub author_time: i64,
    pub added: u64,
    pub removed: u64,
}

pub struct LogFileEntryView {
    pub hash: Seq<char>,
    pub summary: Seq<char>,
    pub author_name: Seq<char>,
    pub author_time: i64,
    pub added: int,
    pub removed: int,
}

impl View for LogFileEntry {
    type V = LogFileEntryView;

    open spec fn view(&self) -> LogFileEntryView {
        LogFileEntryView {
            hash: self.hash@,
            summary: self.summary@,
            author_name: self.author_name@,
            author_time: self.author_time,
            added: self.added as int,
            removed: self.removed as int,
        }
    }
}

pub struct LogState {
    pub commits: Seq<LogFileEntryView>,
    pub current: LogFileEntryView,
    pub in_commit: bool,
}

pub open spec fn log_start() -> LogState {
    LogState {
        commits: Seq::empty(),
        current: LogFileEntryView {
            hash: Seq::empty(),
            summary: Seq::empty(),
            author_name: Seq::empty(),
            author_time: 0,
            added: 0,
            removed: 0,
        },
        in_commit: false,
    }
}

/// The `k`-th tab-separated field of `s` for `k` in 0..3, the remainder
/// after the third tab for `k == 3` (`splitn(4, '\t')`).
pub open spec fn tab_field(s: Seq<char>, k: nat) -> Option<Seq<char>>
    decreases k,
{
    if k == 0 {
        Some(before_char(s, '\t'))
    } else if k == 3 {
        match after_char(s, '\t') {
            Some(r) => match after_char(r, '\t') {
                Some(r2) => after_char(r2, '\t'),
                None => None,
            },
            None => None,
        }
    } else {
        match after_char(s, '\t') {
            Some(r) => tab_field(r, (k - 1) as nat),
            None => None,
        }
    }
}

pub open spec fn or_empty(o: Option<Seq<char>>) -> Seq<char> {
    match o {
        Some(s) => s,
        None => Seq::empty(),
    }
}

pub open spec fn u64_or(o: Option<u64>, d: u64) -> u64 {
    match o {
        Some(n) => n,
        None => d,
    }
}

/// The effect of one line: `SPLIT\t<hash>\t<summary>\t<author>\t<time>` closes
/// the open commit and opens a new one; while a commit is open, a line with a
/// tab is a numstat line `<added>\t<removed>\t<path>` whose counts are added
/// (a count that does not parse adds 0).
pub open spec fn log_step(st: LogState, line: Seq<char>) -> LogState {
    if has_prefix(line, "SPLIT\t"@) {
        let rest = after_prefix(line, "SPLIT\t"@);
        LogState {
            commits: if st.in_commit {
                st.commits.push(st.current)
            } else {
                st.commits
            },
            current: LogFileEntryView {
                hash: or_empty(tab_field(rest, 0)),
                summary: or_empty(tab_field(rest, 1)),
                author_name: or_empty(tab_field(rest, 2)),
                author_time: match tab_field(rest, 3) {
                    Some(t) => match parse_i64_spec(trim(t)) {
                        Some(v) => v,
                        None => 0,
                    },
                    None => 0,
                },
                added: 0,
                removed: 0,
            },
            in_commit: true,
        }
    } else if st.in_commit && line.len() > 0 && has_char(line, '\t') {
        let a = u64_or(parse_u64_spec(before_char(line, '\t')), 0);
        let r = match after_char(line, '\t') {
            Some(t) => u64_or(parse_u64_spec(before_char(t, '\t')), 0),
            None => 0,
        };
        LogState {
            current: LogFileEntryView {
                added: st.current.added + a,
                removed: st.current.removed + r,
                ..st.current
            },
            ..st
        }
    } else {
        st
    }
}

pub open spec fn log_fold(lines: Seq<Seq<char>>) -> LogState
    decreases lines.len(),
{
    if lines.len() == 0 {
        log_start()
    } else {
        log_step(log_fold(lines.drop_last()), lines.last())
    }
}

/// The commits that `git log --follow --numstat --format=SPLIT\t%H\t%s\t%an\t%at`
/// output `raw` describes.
pub open spec fn log_commits(raw: Seq<char>) -> Seq<LogFileEntryView> {
    let st = log_fold(lines_of(raw));
    if st.in_commit {
        st.commits.push(st.current)
    } else {
        st.commits
    }
}

/// The per-commit totals stay within 64 bits.
pub open spec fn log_fits(raw: Seq<char>) -> bool {
    forall|k: int|
        0 <= k <= lines_of(raw).len() ==> {
            let st = #[trigger] log_fold(lines_of(raw).take(k));
            st.current.added <= u64::MAX && st.current.removed <= u64::MAX
        }
}

fn field_or_empty(v: &Option<Vec<char>>) -> (r: Vec<char>)
    ensures
        r@ == or_empty(match v {
            Some(x) => Some(x@),
            None => None,
        }),
{
    match v {
        Some(x) => slice_of(x, 0, x.len()),
        None => Vec::new(),
    }
}

/// Build the record of a finished commit.
pub fn make_log_entry(
    hash: String,
    summary: String,
    author_name: String,
    author_time: i64,
    added: u64,
    removed: u64,
) -> (e: LogFileEntry)
    ensures
        e.hash@ == hash@,
        e.summary@ == summary@,
        e.author_name@ == author_name@,
        e.author_time == author_time,
        e.added == added,
        e.removed == removed,
{
    LogFileEntry { hash, summary, author_name, author_time, added, removed }
}

/// Parse file-history output; `None` when a commit's totals pass `u64::MAX`.
pub fn parse_log_file_output_checked(raw: &str) -> (r: Option<Vec<LogFileEntry>>)
    ensures
        r is Some <==> log_fits(raw@),
        r is Some ==> r->0.len() == log_commits(raw@).len() && forall|i: int|
            0 <= i < r->0.len() ==> #[trigger] r->0[i]@ == log_commits(raw@)[i],
{
    let text = chars_of(raw);
    let lines = split_lines(&text);
    let ghost ls = lines_of(raw@);
    let mut commits: Vec<LogFileEntry> = Vec::new();
    let mut current_hash: Vec<char> = Vec::new();
    let mut current_summary: Vec<char> = Vec::new();
    let mut current_author: Vec<char> = Vec::new();
    let mut current_time: i64 = 0;
    let mut current_added: u64 = 0;
    let mut current_removed: u64 = 0;
    let mut in_commit = false;
    let mut k: usize = 0;
    while k < lines.len()
        invariant
            k <= lines.len() == ls.len(),
            ls == lines_of(raw@),
            forall|j: int| 0 <= j < lines.len() ==> #[trigger] lines[j]@ == ls[j],
            forall|j: int|
                0 <= j <= k ==> {
                    let s = #[trigger] log_fold(ls.take(j));
                    s.current.added <= u64::MAX && s.current.removed <= u64::MAX
                },
            ({
                let st = log_fold(ls.take(k as int));
                &&& commits.len() == st.commits.len()
                &&& forall|i: int| 0 <= i < commits.len() ==> #[trigger] commits[i]@ == st.commits[i]
                &&& current_hash@ == st.current.hash
                &&& current_summary@ == st.current.summary
                &&& current_author@ == st.current.author_name
                &&& current_time == st.current.author_time
                &&& current_added == st.current.added
                &&& current_removed == st.current.removed
                &&& in_commit == st.in_commit
            }),
        decreases lines.len() - k,
    {
        let line = &lines[k];
        let ghost st = log_fold(ls.take(k as int));
        assert(ls.take(k + 1).drop_last() =~= ls.take(k as int));
        assert(ls.take(k + 1).last() == line@);
        if let Some(rest) = strip_prefix(line, "SPLIT\t") {
            if in_commit {
                commits.push(
                    make_log_entry(
                        string_of(&current_hash),
                        string_of(&current_summary),
                        string_of(&current_author),
                        current_time,
                        current_added,
                        current_removed,
                    ),
                );
            }
            let (f0, r0) = split_at_char(&rest, '\t');
            let (f1, f2, f3) = match r0 {
                Some(r0) => {
                    let (f1, r1) = split_at_char(&r0, '\t');
                    match r1 {
                        Some(r1) => {
                            let (f2, r2) = split_at_char(&r1, '\t');
                            (Some(f1), Some(f2), r2)
                        },
                        None => (Some(f1), None, None),
                    }
                },
                None => (None, None, None),
            };
            current_hash = f0;
            current_summary = field_or_empty(&f1);
            current_author = field_or_empty(&f2);
            current_time = match f3 {
                Some(t) => match parse_i64(&trimmed(&t)) {
                    Some(v) => v,
                    None => 0,
                },
                None => 0,
            };
            current_added = 0;
            current_removed = 0;
            in_commit = true;
            proof {
                reveal_with_fuel(tab_field, 3);
                assert(current_hash@ == or_empty(tab_field(rest@, 0)));
                assert(current_summary@ == or_empty(tab_field(rest@, 1)));
                assert(current_author@ == or_empty(tab_field(rest@, 2)));
            }
        } else if in_commit && line.len() > 0 && contains_char(line, '\t') {
            let (a, rest) = split_at_char(line, '\t');
            let added = match parse_u64(&a) {
                Some(n) => n,
                None => 0,
            };
            let removed = match rest {
                Some(t) => match parse_u64(&split_at_char(&t, '\t').0) {
                    Some(n) => n,
                    None => 0,
                },
                None => 0,
            };
            if current_added > u64::MAX - added || current_removed > u64::MAX - removed {
                assert(!({
                    let s = log_fold(ls.take(k + 1));
                    s.current.added <= u64::MAX && s.current.removed <= u64::MAX
                }));
                return None;
            }
            current_added = current_added + added;
            current_removed = current_removed + removed;
        }
        k += 1;
    }
    assert(ls.take(ls.len() as int) =~= ls);
    if in_commit {
        commits.push(
            make_log_entry(
                string_of(&current_hash),
                string_of(&current_summary),
                string_of(&current_author),
                current_time,
                current_added,
                current_removed,
            ),
        );
    }
    Some(commits)
}

/// Parse file-history output (`SPLIT\t%H\t%s\t%an\t%at` headers followed by
/// numstat lines) into one record per commit.
pub fn parse_log_file_output(raw: &str) -> (out: Vec<LogFileEntry>)
    requires
        log_fits(raw@),
    ensures
        out.len() == log_commits(raw@).len(),
        forall|i: int| 0 <= i < out.len() ==> #[trigger] out[i]@ == log_commits(raw@)[i],
{
    match parse_log_file_output_checked(raw) {
        Some(v) => v,
        None => {
            proof {
                assert(false);
            }
            Vec::new()
        },
    }
}


// ── Argument validation ──────────────────────────────────────────────────────

/// Characters allowed in a git ref besides ASCII letters and digits.
pub open spec fn is_ref_char(c: char) -> bool {
    is_alnum(c) || c == '.' || c == '_' || c == '/' || c == '-' || c == '@' || c == '{' || c
        == '}' || c == '^' || c == '~' || c == ':'
}

/// Why `r` is refused as a git ref, if it is.
pub open spec fn git_ref_error(r: Seq<char>) -> Option<Seq<char>> {
    if r.len() == 0 {
        Some("ref must not be empty"@)
    } else if r[0] == '-' {
        Some("ref must not start with '-'"@)
    } else if r[0] == '.' {
        Some("ref must not start with '.'"@)
    } else if has_pair(r, '.', '.') {
        Some("ref must not contain '..'"@)
    } else if !(forall|i: int| 0 <= i < r.len() ==> is_ref_char(#[trigger] r[i])) {
        Some("ref contains disallowed characters"@)
    } else {
        None
    }
}

pub open spec fn refused_as(res: Result<(), &'static str>, why: Option<Seq<char>>) -> bool {
    match res {
        Ok(_) => why is None,
        Err(m) => why == Some(m@),
    }
}

/// Validate a git ref (SHA, branch, tag, `HEAD`, refspecs) for use as a
/// subprocess argument: not empty, no leading `-` or `.`, no `..`, and only
/// `[A-Za-z0-9._/@{}^~:-]`.
pub fn validate_git_ref(r: &str) -> (res: Result<(), &'static str>)
    ensures
        refused_as(res, git_ref_error(r@)),
{
    let v = chars_of(r);
    if v.len() == 0 {
        return Err("ref must not be empty");
    }
    if v[0] == '-' {
        return Err("ref must not start with '-'");
    }
    if v[0] == '.' {
        return Err("ref must not start with '.'");
    }
    if contains_pair(&v, '.', '.') {
        return Err("ref must not contain '..'");
    }
    let mut i: usize = 0;
    while i < v.len()
        invariant
            i <= v.len(),
            v@ == r@,
            v@.len() > 0 && v@[0] != '-' && v@[0] != '.' && !has_pair(v@, '.', '.'),
            forall|j: int| 0 <= j < i ==> is_ref_char(#[trigger] v@[j]),
        decreases v.len() - i,
    {
        let c = v[i];
        if !(alnum(c) || c == '.' || c == '_' || c == '/' || c == '-' || c == '@' || c == '{' || c
            == '}' || c == '^' || c == '~' || c == ':') {
            assert(!is_ref_char(r@[i as int]));
            return Err("ref contains disallowed characters");
        }
        i += 1;
    }
    Ok(())
}

/// Why `p` is refused as a path argument, if it is.
pub open spec fn path_arg_error(p: Seq<char>) -> Option<Seq<char>> {
    if has_pair(p, '.', '.') {
        Some("path must not contain '..'"@)
    } else if p.len() > 0 && p[0] == ':' {
        Some("path must not start with ':' (pathspec magic)"@)
    } else {
        None
    }
}

/// Validate a file path argument: no `..`, no leading `:` (pathspec magic).
pub fn validate_path_arg(p: &str) -> (res: Result<(), &'static str>)
    ensures
        refused_as(res, path_arg_error(p@)),
{
    let v = chars_of(p);
    if contains_pair(&v, '.', '.') {
        return Err("path must not contain '..'");
    }
    if v.len() > 0 && v[0] == ':' {
        return Err("path must not start with ':' (pathspec magic)");
    }
    Ok(())
}

/// Characters allowed inside a branch name.
pub open spec fn is_branch_body_char(c: char) -> bool {
    is_alnum(c) || c == '.' || c == '_' || c == '-' || c == '/'
}

/// Why `name` (with `byte_len` bytes in UTF-8) is refused as a branch name.
/// After the first character, as many characters as the name has bytes less
/// two are held to the body alphabet.
pub open spec fn branch_name_error(name: Seq<char>, byte_len: int) -> Option<Seq<char>> {
    let body = if byte_len - 2 < name.len() - 1 {
        byte_len - 2
    } else {
        name.len() - 1
    };
    if byte_len < 2 {
        Some("branch name too short (minimum 2 chars)"@)
    } else if has_pair(name, '.', '.') {
        Some("branch name must not contain '..'"@)
    } else if name.len() == 0 || !is_alnum(name[0]) || !is_alnum(name.last()) {
        Some("branch name must start and end with [a-zA-Z0-9]"@)
    } else if !(forall|i: int| 1 <= i <= body ==> is_branch_body_char(#[trigger] name[i])) {
        Some("branch name contains disallowed characters"@)
    } else {
        None
    }
}

/// Validate a branch name: at least two bytes, no `..`, `[a-zA-Z0-9]` at start
/// and end, `[a-zA-Z0-9._\-/]` in between.
pub fn validate_branch_name(name: &str) -> (res: Result<(), &'static str>)
    ensures
        refused_as(res, branch_name_error(name@, name.len() as int)),
{
    let byte_len = name.len();
    if byte_len < 2 {
        return Err("branch name too short (minimum 2 chars)");
    }
    let v = chars_of(name);
    if contains_pair(&v, '.', '.') {
        return Err("branch name must not contain '..'");
    }
    if v.len() == 0 || !alnum(v[0]) || !alnum(v[v.len() - 1]) {
        return Err("branch name must start and end with [a-zA-Z0-9]");
    }
    let body = if byte_len - 2 < v.len() - 1 {
        byte_len - 2
    } else {
        v.len() - 1
    };
    let mut i: usize = 1;
    while i <= body
        invariant
            1 <= i <= body + 1,
            body < v.len(),
            v@ == name@,
            byte_len == name.len() >= 2,
            body == (if byte_len - 2 < v.len() - 1 {
                byte_len - 2
            } else {
                v.len() - 1
            }),
            !has_pair(v@, '.', '.') && v@.len() > 0 && is_alnum(v@[0]) && is_alnum(v@.last()),
            forall|j: int| 1 <= j < i ==> is_branch_body_char(#[trigger] v@[j]),
        decreases body + 1 - i,
    {
        let c = v[i];
        if !(alnum(c) || c == '.' || c == '_' || c == '-' || c == '/') {
            assert(!is_branch_body_char(name@[i as int]));
            return Err("branch name contains disallowed characters");
        }
        i += 1;
    }
    Ok(())
}

} // verus!
