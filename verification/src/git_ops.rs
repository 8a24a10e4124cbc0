//! The git operations of the shell: the argv each request becomes, and the
//! reading of what git prints (status, log, branches, commit).
use vstd::prelude::*;

use crate::git::{branch_name_error, refused_as, validate_branch_name};
use crate::offsets::{byte_count, byte_len_of, byte_offset, char_index_at_byte, on_boundary};
use crate::paths::{pieces, split_all};
use crate::text::{
    after_char, before_char, chars_of, find, find_char, has_char, has_pair, is_space,
    lemma_find_char, lines_of, parse_u64, parse_u64_spec, slice_of, space, split_lines, string_of,
    trim, trimmed,
};
use crate::think::{find_from, find_seq};

verus! {

pub open spec fn str_views(v: Seq<String>) -> Seq<Seq<char>> {
    v.map_values(|s: String| s@)
}

fn strs(v: Vec<Vec<char>>) -> (r: Vec<String>)
    ensures
        r@.len() == v@.len(),
        forall|k: int| 0 <= k < v@.len() ==> #[trigger] r@[k]@ == v@[k]@,
{
    let mut r: Vec<String> = Vec::new();
    let mut i: usize = 0;
    while i < v.len()
        invariant
            i <= v.len(),
            r@.len() == i,
            forall|k: int| 0 <= k < i ==> #[trigger] r@[k]@ == v@[k]@,
        decreases v.len() - i,
    {
        r.push(string_of(&v[i]));
        i += 1;
    }
    r
}

// ── Splitting ───────────────────────────────────────────────────────────────

/// `s.splitn(n, c)` for `n >= 1`: at most `n` pieces, the last holding the rest.
pub open spec fn splitn_of(s: Seq<char>, c: char, n: nat) -> Seq<Seq<char>>
    decreases n,
{
    if n <= 1 || !has_char(s, c) {
        seq![s]
    } else {
        seq![s.take(find_char(s, c))] + splitn_of(s.skip(find_char(s, c) + 1), c, (n - 1) as nat)
    }
}

/// Piece `k` of a split, or the empty text when there are fewer pieces.
pub open spec fn piece_or_empty(ps: Seq<Seq<char>>, k: int) -> Seq<char> {
    if 0 <= k < ps.len() {
        ps[k]
    } else {
        Seq::empty()
    }
}

/// `s.splitn(n, c)` for `n >= 1`.
pub fn splitn(v: &Vec<char>, c: char, n: usize) -> (out: Vec<Vec<char>>)
    requires
        n >= 1,
    ensures
        out@.len() == splitn_of(v@, c, n as nat).len(),
        forall|k: int| 0 <= k < out@.len() ==> #[trigger] out@[k]@ == splitn_of(v@, c, n as nat)[k],
{
    let mut out: Vec<Vec<char>> = Vec::new();
    let mut rest = slice_of(v, 0, v.len());
    assert(rest@ =~= v@);
    let mut left: usize = n;
    loop
        invariant_except_break
            left >= 1,
            left <= n,
            splitn_of(v@, c, n as nat) == out@.map_values(|x: Vec<char>| x@) + splitn_of(
                rest@,
                c,
                left as nat,
            ),
        ensures
            splitn_of(v@, c, n as nat) == out@.map_values(|x: Vec<char>| x@),
        decreases left,
    {
        let i = find(&rest, c);
        proof {
            lemma_find_char(rest@, c);
        }
        if left <= 1 || i >= rest.len() {
            let ghost before = out@.map_values(|x: Vec<char>| x@);
            out.push(rest);
            assert(out@.map_values(|x: Vec<char>| x@) =~= before.push(rest@));
            assert(before + seq![rest@] =~= before.push(rest@));
            break;
        }
        let head = slice_of(&rest, 0, i);
        let tail = slice_of(&rest, i + 1, rest.len());
        assert(head@ =~= rest@.take(i as int));
        assert(tail@ =~= rest@.skip(i + 1));
        let ghost before = out@.map_values(|x: Vec<char>| x@);
        out.push(head);
        assert(out@.map_values(|x: Vec<char>| x@) =~= before.push(rest@.take(i as int)));
        assert(before + (seq![rest@.take(i as int)] + splitn_of(tail@, c, (left - 1) as nat)) =~= before.push(
            rest@.take(i as int),
        ) + splitn_of(tail@, c, (left - 1) as nat));
        rest = tail;
        left = left - 1;
    }
    proof {
        assert forall|k: int| 0 <= k < out@.len() implies #[trigger] out@[k]@ == splitn_of(
            v@,
            c,
            n as nat,
        )[k] by {
            assert(out@.map_values(|x: Vec<char>| x@)[k] == out@[k]@);
        }
    }
    out
}

fn piece(ps: &Vec<Vec<char>>, k: usize) -> (s: String)
    ensures
        s@ == piece_or_empty(ps@.map_values(|x: Vec<char>| x@), k as int),
{
    if k < ps.len() {
        string_of(&ps[k])
    } else {
        String::new()
    }
}

/// The words of `s[start..]` between Unicode whitespace (`s[start..i]` holds none).
pub open spec fn uwords_from(s: Seq<char>, start: int, i: int) -> Seq<Seq<char>>
    decreases s.len() - i,
{
    if i < 0 || i >= s.len() {
        if 0 <= start < s.len() {
            seq![s.subrange(start, s.len() as int)]
        } else {
            Seq::empty()
        }
    } else if is_space(s[i]) {
        (if start < i {
            seq![s.subrange(start, i)]
        } else {
            Seq::empty()
        }) + uwords_from(s, i + 1, i + 1)
    } else {
        uwords_from(s, start, i + 1)
    }
}

/// What `str::split_whitespace` yields.
pub open spec fn uwords(s: Seq<char>) -> Seq<Seq<char>> {
    uwords_from(s, 0, 0)
}

/// `str::split_whitespace`.
pub fn split_whitespace(v: &Vec<char>) -> (out: Vec<String>)
    ensures
        str_views(out@) == uwords(v@),
{
    let n = v.len();
    let mut out: Vec<String> = Vec::new();
    let mut start: usize = 0;
    let mut i: usize = 0;
    while i < n
        invariant
            n == v.len(),
            start <= i <= n,
            str_views(out@) + uwords_from(v@, start as int, i as int) == uwords(v@),
        decreases n - i,
    {
        if space(v[i]) {
            let ghost before = str_views(out@);
            if start < i {
                out.push(string_from_range(v, start, i));
                assert(str_views(out@) =~= before.push(v@.subrange(start as int, i as int)));
                assert(before + (seq![v@.subrange(start as int, i as int)] + uwords_from(
                    v@,
                    i + 1,
                    i + 1,
                )) =~= str_views(out@) + uwords_from(v@, i + 1, i + 1));
            } else {
                assert(before + (Seq::<Seq<char>>::empty() + uwords_from(v@, i + 1, i + 1)) =~= before
                    + uwords_from(v@, i + 1, i + 1));
            }
            start = i + 1;
        }
        i += 1;
    }
    if start < n {
        let ghost before = str_views(out@);
        out.push(string_from_range(v, start, n));
        assert(str_views(out@) =~= before + seq![v@.subrange(start as int, n as int)]);
    } else {
        assert(str_views(out@) + Seq::<Seq<char>>::empty() =~= str_views(out@));
    }
    out
}

fn string_from_range(v: &Vec<char>, lo: usize, hi: usize) -> (s: String)
    requires
        lo <= hi <= v.len(),
    ensures
        s@ == v@.subrange(lo as int, hi as int),
{
    crate::text::string_from(v, lo, hi)
}

// ── git status ──────────────────────────────────────────────────────────────

/// A line of `git status --porcelain=v1` as (status, path): lines of
/// fewer than three bytes are skipped; the status is the first two bytes
/// trimmed, the path what follows the third.
pub open spec fn status_entry(line: Seq<char>) -> Option<(Seq<char>, Seq<char>)> {
    if byte_count(line) < 3 {
        None
    } else {
        let k2 = choose|k: int| 0 <= k <= line.len() && byte_offset(line, k) == 2;
        let k3 = choose|k: int| 0 <= k <= line.len() && byte_offset(line, k) == 3;
        Some((trim(line.take(k2)), line.skip(k3)))
    }
}

/// A status line can be cut at bytes two and three (each falls between
/// characters); porcelain output always can, its status being ASCII.
pub open spec fn status_line_cuttable(line: Seq<char>) -> bool {
    byte_count(line) >= 3 ==> on_boundary(line, 2) && on_boundary(line, 3)
}

/// The entries of the status output, in order.
pub open spec fn status_entries(ls: Seq<Seq<char>>) -> Seq<(Seq<char>, Seq<char>)>
    decreases ls.len(),
{
    if ls.len() == 0 {
        Seq::empty()
    } else {
        let prev = status_entries(ls.drop_last());
        match status_entry(ls.last()) {
            Some(e) => prev.push(e),
            None => prev,
        }
    }
}

/// One changed file of the status.
#[derive(Debug, Clone, PartialEq, Eq)]
pub struct StatusEntry {
    pub path: String,
    pub status: String,
}

pub open spec fn entry_views(v: Seq<StatusEntry>) -> Seq<(Seq<char>, Seq<char>)> {
    v.map_values(|e: StatusEntry| (e.status@, e.path@))
}

/// Parse `git status --porcelain=v1`; `None` when a line could not be cut
/// between characters.
pub fn parse_status_porcelain(stdout: &str) -> (r: Option<Vec<StatusEntry>>)
    ensures
        r is Some <==> (forall|k: int| 0 <= k < lines_of(stdout@).len() ==> status_line_cuttable(
            #[trigger] lines_of(stdout@)[k],
        )),
        r matches Some(v) ==> entry_views(v@) == status_entries(lines_of(stdout@)),
{
    let text = chars_of(stdout);
    let ls = split_lines(&text);
    let ghost lv = lines_of(text@);
    let mut out: Vec<StatusEntry> = Vec::new();
    let mut i: usize = 0;
    while i < ls.len()
        invariant
            i <= ls.len(),
            ls.len() == lv.len(),
            lv == lines_of(stdout@),
            forall|k: int| 0 <= k < ls.len() ==> #[trigger] ls[k]@ == lv[k],
            forall|k: int| 0 <= k < i ==> status_line_cuttable(#[trigger] lv[k]),
            entry_views(out@) == status_entries(lv.take(i as int)),
        decreases ls.len() - i,
    {
        let l = &ls[i];
        assert(lv.take(i + 1).drop_last() =~= lv.take(i as int));
        assert(lv.take(i + 1).last() == lv[i as int]);
        if byte_len_of(l) >= 3 {
            let k2 = match char_index_at_byte(l, 2) {
                Some(k) => k,
                None => {
                    return None;
                },
            };
            let k3 = match char_index_at_byte(l, 3) {
                Some(k) => k,
                None => {
                    return None;
                },
            };
            proof {
                let c2 = choose|k: int| 0 <= k <= l@.len() && byte_offset(l@, k) == 2;
                let c3 = choose|k: int| 0 <= k <= l@.len() && byte_offset(l@, k) == 3;
                if c2 < k2 {
                    crate::offsets::lemma_offset_increasing(l@, c2, k2 as int);
                } else if c2 > k2 {
                    crate::offsets::lemma_offset_increasing(l@, k2 as int, c2);
                }
                if c3 < k3 {
                    crate::offsets::lemma_offset_increasing(l@, c3, k3 as int);
                } else if c3 > k3 {
                    crate::offsets::lemma_offset_increasing(l@, k3 as int, c3);
                }
            }
            let status = string_of(&trimmed(&slice_of(l, 0, k2)));
            let path = string_of(&slice_of(l, k3, l.len()));
            assert(slice_of_view(l@, 0, k2 as int) == l@.take(k2 as int));
            let ghost before = entry_views(out@);
            out.push(StatusEntry { path, status });
            assert(entry_views(out@) =~= before.push((trim(l@.take(k2 as int)), l@.skip(k3 as int))));
        }
        i += 1;
    }
    assert(lv.take(ls.len() as int) =~= lv);
    Some(out)
}

pub open spec fn slice_of_view(s: Seq<char>, lo: int, hi: int) -> Seq<char> {
    s.subrange(lo, hi)
}

// ── git log ─────────────────────────────────────────────────────────────────

/// One commit of the log view.
#[derive(Debug, Clone, PartialEq, Eq)]
pub struct LogCommit {
    pub sha: String,
    pub short_sha: String,
    pub message: String,
    pub author: String,
    pub timestamp: String,
    pub parent_shas: Vec<String>,
    pub refs: Vec<String>,
}

/// The non-empty trimmed pieces of a comma-separated list.
pub open spec fn ref_names(ps: Seq<Seq<char>>) -> Seq<Seq<char>>
    decreases ps.len(),
{
    if ps.len() == 0 {
        Seq::empty()
    } else if trim(ps.last()).len() == 0 {
        ref_names(ps.drop_last())
    } else {
        ref_names(ps.drop_last()).push(trim(ps.last()))
    }
}

/// The commit of a line of `git log --format=%H\t%h\t%s\t%an\t%ai\t%P\t%D`.
pub open spec fn log_commit_matches(c: LogCommit, line: Seq<char>) -> bool {
    let p = splitn_of(line, '\t', 7);
    &&& c.sha@ == piece_or_empty(p, 0)
    &&& c.short_sha@ == piece_or_empty(p, 1)
    &&& c.message@ == piece_or_empty(p, 2)
    &&& c.author@ == piece_or_empty(p, 3)
    &&& c.timestamp@ == piece_or_empty(p, 4)
    &&& str_views(c.parent_shas@) == uwords(piece_or_empty(p, 5))
    &&& str_views(c.refs@) == ref_names(pieces(piece_or_empty(p, 6), ','))
}

/// The non-empty lines of a text, in order.
pub open spec fn nonempty_lines(ls: Seq<Seq<char>>) -> Seq<Seq<char>>
    decreases ls.len(),
{
    if ls.len() == 0 {
        Seq::empty()
    } else if ls.last().len() == 0 {
        nonempty_lines(ls.drop_last())
    } else {
        nonempty_lines(ls.drop_last()).push(ls.last())
    }
}

fn refs_of(v: &Vec<char>) -> (r: Vec<String>)
    ensures
        str_views(r@) == ref_names(pieces(v@, ',')),
{
    let ps = split_all(v, ',');
    let ghost pv = pieces(v@, ',');
    let mut r: Vec<String> = Vec::new();
    let mut i: usize = 0;
    while i < ps.len()
        invariant
            i <= ps.len() == pv.len(),
            forall|k: int| 0 <= k < ps.len() ==> #[trigger] ps[k]@ == pv[k],
            str_views(r@) == ref_names(pv.take(i as int)),
        decreases ps.len() - i,
    {
        assert(pv.take(i + 1).drop_last() =~= pv.take(i as int));
        let t = trimmed(&ps[i]);
        if t.len() > 0 {
            let ghost before = str_views(r@);
            r.push(string_of(&t));
            assert(str_views(r@) =~= before.push(t@));
        }
        i += 1;
    }
    assert(pv.take(ps.len() as int) =~= pv);
    r
}

/// The commit of one log line.
pub fn log_commit(line: &Vec<char>) -> (c: LogCommit)
    ensures
        log_commit_matches(c, line@),
{
    let p = splitn(line, '\t', 7);
    let ghost pv = splitn_of(line@, '\t', 7);
    assert(p@.map_values(|x: Vec<char>| x@) =~= pv);
    let parents_raw = chars_of(piece(&p, 5).as_str());
    let refs_raw = chars_of(piece(&p, 6).as_str());
    LogCommit {
        sha: piece(&p, 0),
        short_sha: piece(&p, 1),
        message: piece(&p, 2),
        author: piece(&p, 3),
        timestamp: piece(&p, 4),
        parent_shas: split_whitespace(&parents_raw),
        refs: refs_of(&refs_raw),
    }
}

/// The commits of the log output: one per non-empty line.
pub fn parse_git_log(stdout: &str) -> (r: Vec<LogCommit>)
    ensures
        r@.len() == nonempty_lines(lines_of(stdout@)).len(),
        forall|k: int| 0 <= k < r@.len() ==> log_commit_matches(#[trigger] r@[k], nonempty_lines(lines_of(stdout@))[k]),
{
    let text = chars_of(stdout);
    let ls = split_lines(&text);
    let ghost lv = lines_of(text@);
    let mut r: Vec<LogCommit> = Vec::new();
    let mut i: usize = 0;
    while i < ls.len()
        invariant
            i <= ls.len() == lv.len(),
            forall|k: int| 0 <= k < ls.len() ==> #[trigger] ls[k]@ == lv[k],
            r@.len() == nonempty_lines(lv.take(i as int)).len(),
            forall|k: int| 0 <= k < r@.len() ==> log_commit_matches(#[trigger] r@[k], nonempty_lines(lv.take(i as int))[k]),
        decreases ls.len() - i,
    {
        assert(lv.take(i + 1).drop_last() =~= lv.take(i as int));
        if ls[i].len() > 0 {
            r.push(log_commit(&ls[i]));
        }
        i += 1;
    }
    assert(lv.take(ls.len() as int) =~= lv);
    r
}

/// One branch of the log view.
#[derive(Debug, Clone, PartialEq, Eq)]
pub struct BranchRow {
    pub name: String,
    pub head_sha: String,
    pub is_current: bool,
}

/// The branch of a line of `git branch -a --format=%(refname:short)\t%(objectname:short)\t%(HEAD)`.
pub open spec fn branch_row_matches(b: BranchRow, line: Seq<char>) -> bool {
    let p = splitn_of(line, '\t', 3);
    &&& b.name@ == piece_or_empty(p, 0)
    &&& b.head_sha@ == piece_or_empty(p, 1)
    &&& b.is_current == (piece_or_empty(p, 2) == "*"@)
}

/// The branches of the branch output: one per non-empty line.
pub fn parse_branch_rows(stdout: &str) -> (r: Vec<BranchRow>)
    ensures
        r@.len() == nonempty_lines(lines_of(stdout@)).len(),
        forall|k: int| 0 <= k < r@.len() ==> branch_row_matches(#[trigger] r@[k], nonempty_lines(lines_of(stdout@))[k]),
{
    let text = chars_of(stdout);
    let ls = split_lines(&text);
    let ghost lv = lines_of(text@);
    let mut r: Vec<BranchRow> = Vec::new();
    let mut i: usize = 0;
    while i < ls.len()
        invariant
            i <= ls.len() == lv.len(),
            forall|k: int| 0 <= k < ls.len() ==> #[trigger] ls[k]@ == lv[k],
            r@.len() == nonempty_lines(lv.take(i as int)).len(),
            forall|k: int| 0 <= k < r@.len() ==> branch_row_matches(#[trigger] r@[k], nonempty_lines(lv.take(i as int))[k]),
        decreases ls.len() - i,
    {
        assert(lv.take(i + 1).drop_last() =~= lv.take(i as int));
        if ls[i].len() > 0 {
            let p = splitn(&ls[i], '\t', 3);
            assert(p@.map_values(|x: Vec<char>| x@) =~= splitn_of(ls[i as int]@, '\t', 3));
            let cur = piece(&p, 2);
            r.push(
                BranchRow {
                    name: piece(&p, 0),
                    head_sha: piece(&p, 1),
                    is_current: crate::text::str_eq(cur.as_str(), "*"),
                },
            );
        }
        i += 1;
    }
    assert(lv.take(ls.len() as int) =~= lv);
    r
}

/// The branch names of `git branch --format=%(refname:short)`: the non-empty lines.
pub fn parse_branch_names(stdout: &str) -> (r: Vec<String>)
    ensures
        str_views(r@) == nonempty_lines(lines_of(stdout@)),
{
    let text = chars_of(stdout);
    let ls = split_lines(&text);
    let ghost lv = lines_of(text@);
    let mut r: Vec<String> = Vec::new();
    let mut i: usize = 0;
    while i < ls.len()
        invariant
            i <= ls.len() == lv.len(),
            forall|k: int| 0 <= k < ls.len() ==> #[trigger] ls[k]@ == lv[k],
            str_views(r@) == nonempty_lines(lv.take(i as int)),
        decreases ls.len() - i,
    {
        assert(lv.take(i + 1).drop_last() =~= lv.take(i as int));
        if ls[i].len() > 0 {
            let ghost before = str_views(r@);
            r.push(string_of(&ls[i]));
            assert(str_views(r@) =~= before.push(lv[i as int]));
        }
        i += 1;
    }
    assert(lv.take(ls.len() as int) =~= lv);
    r
}

/// The number of commits the log view asks for: the `limit` parameter when
/// it parses as a `usize`, else 40; at most 100.
pub open spec fn log_limit_of(param: Option<Seq<char>>) -> u64 {
    let n = match param {
        Some(p) => match parse_u64_spec(p) {
            Some(v) => if v <= usize::MAX {
                v
            } else {
                40
            },
            None => 40,
        },
        None => 40,
    };
    if n < 100 {
        n
    } else {
        100
    }
}

/// The number of commits the log view asks for.
pub fn log_limit(param: Option<&str>) -> (n: u64)
    ensures
        n == log_limit_of(
            match param {
                Some(p) => Some(p@),
                None => None,
            },
        ),
{
    let n: u64 = match param {
        Some(p) => match parse_u64(&chars_of(p)) {
            Some(v) => if v as u128 <= usize::MAX as u128 {
                v
            } else {
                40
            },
            None => 40,
        },
        None => 40,
    };
    if n < 100 {
        n
    } else {
        100
    }
}

/// The number of commits of a file's history: `n` when given, else 20; at most 100.
pub fn log_file_count(n: Option<u64>) -> (r: u64)
    ensures
        r == (match n {
            Some(v) => if v < 100 {
                v
            } else {
                100
            },
            None => 20,
        }),
{
    match n {
        Some(v) => if v < 100 {
            v
        } else {
            100
        },
        None => 20,
    }
}

/// The short SHA of a commit, from the first line `[branch abc1234] message`:
/// its second word without the trailing `]`, else `unknown`.
pub open spec fn commit_sha_of(stdout: Seq<char>) -> Seq<char> {
    let ls = lines_of(stdout);
    if ls.len() == 0 {
        "unknown"@
    } else {
        let w = uwords(ls[0]);
        if w.len() >= 2 && w[1].len() > 0 && w[1].last() == ']' {
            w[1].drop_last()
        } else {
            "unknown"@
        }
    }
}

/// The short SHA of a commit from `git commit` output.
pub fn commit_sha(stdout: &str) -> (s: String)
    ensures
        s@ == commit_sha_of(stdout@),
{
    let text = chars_of(stdout);
    let ls = split_lines(&text);
    if ls.len() == 0 {
        return String::from_str("unknown");
    }
    let w = split_whitespace(&ls[0]);
    assert(str_views(w@).len() == w@.len());
    if w.len() >= 2 {
        let second = chars_of(w[1].as_str());
        assert(str_views(w@)[1] == w@[1]@);
        if second.len() > 0 && second[second.len() - 1] == ']' {
            let cut = slice_of(&second, 0, second.len() - 1);
            assert(cut@ =~= second@.drop_last());
            return string_of(&cut);
        }
    }
    String::from_str("unknown")
}

/// Whether a `git pull --ff-only` merged anything: its output does not
/// hold `Already up to date`.
pub fn pull_merged(stdout: &str) -> (b: bool)
    ensures
        b == (find_from(stdout@, "Already up to date"@, 0) is None),
{
    find_seq(&chars_of(stdout), &chars_of("Already up to date")).is_none()
}

// ── Argv of each operation ──────────────────────────────────────────────────

/// A branch operation: its git arguments and the key of its answer.
#[derive(Debug, Clone, PartialEq, Eq)]
pub struct BranchPlan {
    pub args: Vec<String>,
    pub answer_key: &'static str,
}

/// The plan of a branch operation, or its 400 message: `list`, or
/// `create`/`switch`/`delete` of a named, valid branch.
pub open spec fn branch_plan_of(op: Seq<char>, name: Option<Seq<char>>, name_bytes: int) -> Result<
    (Seq<Seq<char>>, Seq<char>),
    Seq<char>,
> {
    if op == "list"@ {
        Ok((seq!["branch"@, "--format=%(refname:short)"@], "branches"@))
    } else if op == "create"@ || op == "switch"@ || op == "delete"@ {
        match name {
            None => Err("missing required field: name for op="@ + op),
            Some(n) => match branch_name_error(n, name_bytes) {
                Some(e) => Err(e),
                None => if op == "create"@ {
                    Ok((seq!["checkout"@, "-b"@, n], "created"@))
                } else if op == "switch"@ {
                    Ok((seq!["checkout"@, n], "switched_to"@))
                } else {
                    Ok((seq!["branch"@, "-d"@, n], "deleted"@))
                },
            },
        }
    } else {
        Err("op must be one of: list, create, switch, delete"@)
    }
}

pub open spec fn plan_view(r: Result<BranchPlan, String>) -> Result<(Seq<Seq<char>>, Seq<char>), Seq<char>> {
    match r {
        Ok(p) => Ok((str_views(p.args@), p.answer_key@)),
        Err(e) => Err(e@),
    }
}

/// Plan a branch operation.
pub fn branch_plan(op: &str, name: Option<&str>) -> (r: Result<BranchPlan, String>)
    ensures
        plan_view(r) == branch_plan_of(
            op@,
            match name {
                Some(n) => Some(n@),
                None => None,
            },
            match name {
                Some(n) => n.len() as int,
                None => 0,
            },
        ),
{
    let s = |x: &str| -> (r: String)
        ensures
            r@ == x@,
        { String::from_str(x) };
    if crate::text::str_eq(op, "list") {
        let args = vec![s("branch"), s("--format=%(refname:short)")];
        assert(str_views(args@) =~= seq!["branch"@, "--format=%(refname:short)"@]);
        return Ok(BranchPlan { args, answer_key: "branches" });
    }
    let is_create = crate::text::str_eq(op, "create");
    let is_switch = crate::text::str_eq(op, "switch");
    let is_delete = crate::text::str_eq(op, "delete");
    if !(is_create || is_switch || is_delete) {
        return Err(s("op must be one of: list, create, switch, delete"));
    }
    let n = match name {
        None => {
            return Err(s("missing required field: name for op=").concat(op));
        },
        Some(n) => n,
    };
    match validate_branch_name(n) {
        Err(e) => {
            return Err(s(e));
        },
        Ok(()) => {},
    }
    if is_create {
        let args = vec![s("checkout"), s("-b"), s(n)];
        assert(str_views(args@) =~= seq!["checkout"@, "-b"@, n@]);
        Ok(BranchPlan { args, answer_key: "created" })
    } else if is_switch {
        let args = vec![s("checkout"), s(n)];
        assert(str_views(args@) =~= seq!["checkout"@, n@]);
        Ok(BranchPlan { args, answer_key: "switched_to" })
    } else {
        let args = vec![s("branch"), s("-d"), s(n)];
        assert(str_views(args@) =~= seq!["branch"@, "-d"@, n@]);
        Ok(BranchPlan { args, answer_key: "deleted" })
    }
}

/// The arguments of `git diff`: `--staged` when asked, and a path after
/// `--` (refused when it holds `..`).
pub fn diff_args(staged: bool, path: Option<&str>) -> (r: Result<Vec<String>, &'static str>)
    ensures
        match path {
            Some(p) if has_pair(p@, '.', '.') => r == Err::<Vec<String>, &'static str>(
                "path must not contain '..'",
            ),
            _ => r matches Ok(a) && str_views(a@) == seq!["diff"@] + (if staged {
                seq!["--staged"@]
            } else {
                Seq::empty()
            }) + match path {
                Some(p) => seq!["--"@, p@],
                None => Seq::empty(),
            },
        },
{
    let mut args: Vec<String> = Vec::new();
    args.push(String::from_str("diff"));
    if staged {
        args.push(String::from_str("--staged"));
    }
    if let Some(p) = path {
        if crate::text::contains_pair(&chars_of(p), '.', '.') {
            return Err("path must not contain '..'");
        }
        args.push(String::from_str("--"));
        args.push(String::from_str(p));
    }
    assert(str_views(args@) =~= seq!["diff"@] + (if staged {
        seq!["--staged"@]
    } else {
        Seq::empty()
    }) + match path {
        Some(p) => seq!["--"@, p@],
        None => Seq::empty(),
    });
    Ok(args)
}

/// Force pushes are refused for good (403), whatever else is asked.
pub fn force_push_refusal(force: bool) -> (r: Option<&'static str>)
    ensures
        force ==> (r matches Some(m) && m@ == "force push is permanently disabled (T-5)"@),
        !force ==> r is None,
{
    if force {
        Some("force push is permanently disabled (T-5)")
    } else {
        None
    }
}

/// The arguments of `git push`: with an upstream, to `origin` for the named
/// branch (default `HEAD`), which must be a valid branch name.
pub fn push_args(set_upstream: bool, branch: Option<&str>) -> (r: Result<Vec<String>, &'static str>)
    ensures
        !set_upstream ==> (r matches Ok(a) && str_views(a@) == seq!["push"@]),
        set_upstream ==> ({
            let b = match branch {
                Some(x) => x@,
                None => "HEAD"@,
            };
            let nb = vstd::utf8::encode_utf8(b).len() as usize as int;
            match branch_name_error(b, nb) {
                Some(e) => r matches Err(m) && m@ == e,
                None => r matches Ok(a) && str_views(a@) == seq!["push"@, "--set-upstream"@, "origin"@, b],
            }
        }),
{
    if !set_upstream {
        let args = vec![String::from_str("push")];
        assert(str_views(args@) =~= seq!["push"@]);
        return Ok(args);
    }
    let b: &str = match branch {
        Some(x) => x,
        None => "HEAD",
    };
    proof {
        reveal_strlit("HEAD");
    }
    match validate_branch_name(b) {
        Err(e) => Err(e),
        Ok(()) => {
            let args = vec![
                String::from_str("push"),
                String::from_str("--set-upstream"),
                String::from_str("origin"),
                String::from_str(b),
            ];
            assert(str_views(args@) =~= seq!["push"@, "--set-upstream"@, "origin"@, b@]);
            Ok(args)
        },
    }
}

/// The arguments of a commit that skips hooks.
pub fn commit_args(message: &str) -> (r: Vec<String>)
    ensures
        str_views(r@) == seq!["commit"@, "--no-verify"@, "-m"@, message@],
{
    let args = vec![
        String::from_str("commit"),
        String::from_str("--no-verify"),
        String::from_str("-m"),
        String::from_str(message),
    ];
    assert(str_views(args@) =~= seq!["commit"@, "--no-verify"@, "-m"@, message@]);
    args
}

/// The GitHub API URL of a repository's pull requests.
pub fn pulls_url(owner: &str, repo: &str) -> (u: String)
    ensures
        u@ == "https://api.github.com/repos/"@ + owner@ + "/"@ + repo@ + "/pulls"@,
{
    String::from_str("https://api.github.com/repos/").concat(owner).concat("/").concat(repo).concat(
        "/pulls",
    )
}

/// The GitHub API URL of a pull request's reviews.
pub fn reviews_url(owner: &str, repo: &str, number: u64) -> (u: String)
    ensures
        u@ == "https://api.github.com/repos/"@ + owner@ + "/"@ + repo@ + "/pulls/"@ + crate::text::decimal(
            number as nat,
        ) + "/reviews"@,
{
    String::from_str("https://api.github.com/repos/").concat(owner).concat("/").concat(repo).concat(
        "/pulls/",
    ).concat(crate::text::decimal_string(number).as_str()).concat("/reviews")
}

} // verus!
