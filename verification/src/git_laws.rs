//! Laws of the git parsers and validators, stated over their inputs.
use vstd::prelude::*;

use crate::git::{
    blame_fold, blame_hash_line, blame_step, cache_index, diff_fold, diff_step, header_ranges,
    DiffLineKind, DiffLineView, git_ref_error, log_fold, CommitInfo,
};
use crate::text::{
    after_prefix, find_char, has_prefix, is_hex, is_ascii_space, lemma_find_char, pair_at, parse_u64_spec,
    words_from, words_of,
};

verus! {

// ── Git refs ────────────────────────────────────────────────────────────────

/// A git ref is accepted exactly when it is not empty, starts with neither
/// `-` nor `.`, holds no `..`, and every character is an ASCII letter or
/// digit or one of `. _ / - @ { } ^ ~ :` (so `HEAD~1`, `main@{1}` and
/// `v1.2^{}` pass).
pub proof fn git_ref_accepted_exactly(r: Seq<char>)
    ensures
        git_ref_error(r) is None <==> {
            &&& r.len() > 0
            &&& r[0] != '-'
            &&& r[0] != '.'
            &&& forall|i: int| 0 <= i < r.len() - 1 ==> !(r[i] == '.' && #[trigger] r[i + 1] == '.')
            &&& forall|i: int|
                0 <= i < r.len() ==> {
                    let c = #[trigger] r[i];
                    ||| 'a' <= c <= 'z'
                    ||| 'A' <= c <= 'Z'
                    ||| '0' <= c <= '9'
                    ||| c == '.'
                    ||| c == '_'
                    ||| c == '/'
                    ||| c == '-'
                    ||| c == '@'
                    ||| c == '{'
                    ||| c == '}'
                    ||| c == '^'
                    ||| c == '~'
                    ||| c == ':'
                }
        },
{
    if r.len() > 0 && r[0] != '-' && r[0] != '.' {
        assert((exists|i: int| #[trigger] pair_at(r, i, '.', '.')) <==> (exists|i: int|
            0 <= i < r.len() - 1 && r[i] == '.' && #[trigger] r[i + 1] == '.')) by {
            if exists|i: int| #[trigger] pair_at(r, i, '.', '.') {
                let i = choose|i: int| #[trigger] pair_at(r, i, '.', '.');
                assert(0 <= i < r.len() - 1 && r[i] == '.' && r[i + 1] == '.');
            }
            if exists|i: int| 0 <= i < r.len() - 1 && r[i] == '.' && #[trigger] r[i + 1] == '.' {
                let i = choose|i: int| 0 <= i < r.len() - 1 && r[i] == '.' && #[trigger] r[i + 1]
                    == '.';
                assert(pair_at(r, i, '.', '.'));
            }
        }
    }
}

// ── File history ────────────────────────────────────────────────────────────

/// The lines of `m` are none of them a commit header.
pub open spec fn no_commit_header(m: Seq<Seq<char>>) -> bool {
    forall|i: int| 0 <= i < m.len() ==> !has_prefix(#[trigger] m[i], "SPLIT\t"@)
}

/// A commit header opens a commit with nothing counted yet, whatever came
/// before it.
pub proof fn commit_header_starts_from_zero(before: Seq<Seq<char>>, header: Seq<char>)
    requires
        has_prefix(header, "SPLIT\t"@),
    ensures
        log_fold(before.push(header)).in_commit,
        log_fold(before.push(header)).current.added == 0,
        log_fold(before.push(header)).current.removed == 0,
{
    assert(before.push(header).drop_last() =~= before);
}

/// Folding lines that hold no commit header over two states with the same
/// open commit status and the same current commit yields the same current
/// commit.
proof fn lemma_log_fold_current(a: Seq<Seq<char>>, b: Seq<Seq<char>>, m: Seq<Seq<char>>)
    requires
        no_commit_header(m),
        log_fold(a).current == log_fold(b).current,
        log_fold(a).in_commit == log_fold(b).in_commit,
    ensures
        log_fold(a + m).current == log_fold(b + m).current,
        log_fold(a + m).in_commit == log_fold(b + m).in_commit,
    decreases m.len(),
{
    if m.len() == 0 {
        assert(a + m =~= a);
        assert(b + m =~= b);
    } else {
        let m0 = m.drop_last();
        assert forall|i: int| 0 <= i < m0.len() implies !has_prefix(#[trigger] m0[i], "SPLIT\t"@) by {
            assert(m0[i] == m[i]);
        }
        lemma_log_fold_current(a, b, m0);
        assert((a + m).drop_last() =~= a + m0);
        assert((b + m).drop_last() =~= b + m0);
        assert((a + m).last() == m.last());
        assert((b + m).last() == m.last());
        assert(!has_prefix(m.last(), "SPLIT\t"@)) by {
            assert(m.last() == m[m.len() - 1]);
        }
    }
}

/// A commit's totals count only its own numstat lines: the commit opened by
/// a header and followed by lines that hold no header has the same record
/// whatever history came before the header.
pub proof fn commit_totals_are_its_own(
    before: Seq<Seq<char>>,
    header: Seq<char>,
    body: Seq<Seq<char>>,
)
    requires
        has_prefix(header, "SPLIT\t"@),
        no_commit_header(body),
    ensures
        log_fold(before.push(header) + body).current == log_fold(seq![header] + body).current,
{
    let e = Seq::<Seq<char>>::empty();
    assert(before.push(header).drop_last() =~= before);
    assert(e.push(header).drop_last() =~= e);
    assert(e.push(header) =~= seq![header]);
    lemma_log_fold_current(before.push(header), e.push(header), body);
}

// ── Blame ───────────────────────────────────────────────────────────────────

/// The final line number a blame header announces: its third
/// whitespace-separated field (0 when missing or not a number).
pub open spec fn announced_final_line(header: Seq<char>) -> u64 {
    let w = words_of(header);
    if w.len() > 2 {
        match parse_u64_spec(w[2]) {
            Some(n) => n,
            None => 0,
        }
    } else {
        0
    }
}

/// The lines of `m` are neither content lines nor blame headers.
pub open spec fn blame_meta_lines(m: Seq<Seq<char>>) -> bool {
    forall|i: int|
        0 <= i < m.len() ==> !has_prefix(#[trigger] m[i], "\t"@) && !blame_hash_line(m[i])
}

proof fn lemma_words_run(s: Seq<char>, i: int, k: int)
    requires
        0 <= i <= k < s.len(),
        forall|j: int| 0 <= j < k ==> !is_ascii_space(#[trigger] s[j]),
        is_ascii_space(s[k]),
    ensures
        words_from(s, 0, i) == words_from(s, 0, k),
    decreases k - i,
{
    if i < k {
        lemma_words_run(s, i + 1, k);
    }
}

/// The first word of a blame header is its 40-character hash.
proof fn lemma_header_hash(h: Seq<char>)
    requires
        blame_hash_line(h),
    ensures
        h.len() > 40,
        words_of(h).len() > 0,
        words_of(h)[0] == h.subrange(0, 40),
{
    lemma_find_char(h, ' ');
    assert(find_char(h, ' ') == 40);
    assert forall|j: int| 0 <= j < 40 implies !is_ascii_space(#[trigger] h[j]) by {
        assert(h.subrange(0, find_char(h, ' '))[j] == h[j]);
    }
    lemma_words_run(h, 0, 40);
}

proof fn lemma_cache_first(c: Seq<CommitInfo>, h: Seq<char>)
    ensures
        0 <= cache_index(c, h) <= c.len(),
        cache_index(c, h) < c.len() ==> c[cache_index(c, h)].0 == h,
    decreases c.len(),
{
    if c.len() > 0 && c[0].0 != h {
        lemma_cache_first(c.drop_first(), h);
        if cache_index(c, h) < c.len() {
            assert(c[cache_index(c, h)] == c.drop_first()[cache_index(c.drop_first(), h)]);
        }
    }
}

proof fn lemma_cache_push(c: Seq<CommitInfo>, x: CommitInfo)
    requires
        cache_index(c, x.0) == c.len(),
    ensures
        cache_index(c.push(x), x.0) == c.len(),
    decreases c.len(),
{
    if c.len() == 0 {
        assert(c.push(x)[0] == x);
    } else {
        assert(c[0].0 != x.0);
        assert(c.push(x).drop_first() =~= c.drop_first().push(x));
        assert(c.push(x)[0] == c[0]);
        lemma_cache_push(c.drop_first(), x);
    }
}

/// Lines that are neither content nor header leave the emitted lines, the
/// current commit and its final line number alone.
proof fn lemma_blame_meta(a: Seq<Seq<char>>, m: Seq<Seq<char>>)
    requires
        blame_meta_lines(m),
    ensures
        blame_fold(a + m).out == blame_fold(a).out,
        blame_fold(a + m).cache == blame_fold(a).cache,
        blame_fold(a + m).hash == blame_fold(a).hash,
        blame_fold(a + m).final_line == blame_fold(a).final_line,
    decreases m.len(),
{
    if m.len() == 0 {
        assert(a + m =~= a);
    } else {
        let m0 = m.drop_last();
        assert forall|i: int| 0 <= i < m0.len() implies !has_prefix(#[trigger] m0[i], "\t"@)
            && !blame_hash_line(m0[i]) by {
            assert(m0[i] == m[i]);
        }
        lemma_blame_meta(a, m0);
        assert((a + m).drop_last() =~= a + m0);
        assert((a + m).last() == m[m.len() - 1]);
    }
}

/// Each blamed line carries the final line number of the header that
/// introduced its commit: after a header, any lines that are neither content
/// nor a header, and a content line, exactly one more line is emitted, the
/// earlier ones are kept, and the new one has the header's third field as
/// its number, the header's hash, and the content after the tab.
pub proof fn blame_line_takes_final_line_number(
    before: Seq<Seq<char>>,
    header: Seq<char>,
    meta: Seq<Seq<char>>,
    content: Seq<char>,
)
    requires
        blame_hash_line(header),
        blame_meta_lines(meta),
        has_prefix(content, "\t"@),
    ensures
        ({
            let o0 = blame_fold(before).out;
            let o = blame_fold(before.push(header) + meta.push(content)).out;
            &&& o.len() == o0.len() + 1
            &&& o.take(o0.len() as int) == o0
            &&& o.last().n == announced_final_line(header)
            &&& o.last().hash == header.subrange(0, 40)
            &&& o.last().content == after_prefix(content, "\t"@)
        }),
{
    let a = before.push(header);
    assert(a.drop_last() =~= before);
    lemma_header_hash(header);
    reveal_strlit("\t");
    assert(is_hex(header[0]));
    assert(!has_prefix(header, "\t"@)) by {
        if has_prefix(header, "\t"@) {
            assert(header.subrange(0, 1)[0] == header[0]);
        }
    }
    assert(blame_fold(a) == blame_step(blame_fold(before), header));
    lemma_blame_meta(a, meta);
    let all = a + meta.push(content);
    assert(all.drop_last() =~= a + meta);
    assert(all.last() == content);
    let st = blame_fold(a + meta);
    assert(st.hash == header.subrange(0, 40));
    assert(st.final_line == announced_final_line(header));
    lemma_cache_first(st.cache, st.hash);
    if cache_index(st.cache, st.hash) == st.cache.len() {
        lemma_cache_push(st.cache, (st.hash, st.author, st.author_time, st.summary));
    }
    let o0 = blame_fold(before).out;
    assert(blame_fold(all).out.take(o0.len() as int) =~= o0);
}

// ── Unified diffs ───────────────────────────────────────────────────────────

/// How many of the lines `ls[lo..hi]` are not of kind `kind`.
pub open spec fn count_not(ls: Seq<DiffLineView>, lo: int, hi: int, kind: DiffLineKind) -> int
    decreases hi - lo,
{
    if hi <= lo {
        0
    } else {
        count_not(ls, lo, hi - 1, kind) + if ls[hi - 1].kind != kind {
            1int
        } else {
            0
        }
    }
}

proof fn lemma_count_same(a: Seq<DiffLineView>, b: Seq<DiffLineView>, lo: int, hi: int, kind: DiffLineKind)
    requires
        forall|j: int| lo <= j < hi ==> #[trigger] a[j] == b[j],
    ensures
        count_not(a, lo, hi, kind) == count_not(b, lo, hi, kind),
    decreases hi - lo,
{
    if hi > lo {
        lemma_count_same(a, b, lo, hi - 1, kind);
    }
}

/// The lines of `m` open no hunk.
pub open spec fn no_hunk_header(m: Seq<Seq<char>>) -> bool {
    forall|i: int| 0 <= i < m.len() ==> !has_prefix(#[trigger] m[i], "@@ "@)
}

/// The line numbers of line `k` of `ls`, counted from the hunk's line `b`
/// and its starts: every line but an added one takes the old start plus the
/// lines before it that are not added, every line but a removed one the new
/// start plus the lines before it that are not removed; an added line has no
/// old number and a removed one no new number.
pub open spec fn numbered(ls: Seq<DiffLineView>, b: int, k: int, old_start: int, new_start: int) -> bool {
    &&& ls[k].kind == DiffLineKind::Add ==> ls[k].old_n is None
    &&& ls[k].kind != DiffLineKind::Add ==> ls[k].old_n == Some(
        old_start + count_not(ls, b, k, DiffLineKind::Add),
    )
    &&& ls[k].kind == DiffLineKind::Del ==> ls[k].new_n is None
    &&& ls[k].kind != DiffLineKind::Del ==> ls[k].new_n == Some(
        new_start + count_not(ls, b, k, DiffLineKind::Del),
    )
}

proof fn lemma_hunk_numbers(p: Seq<Seq<char>>, h: Seq<char>, m: Seq<Seq<char>>)
    requires
        has_prefix(h, "@@ "@),
        no_hunk_header(m),
    ensures
        ({
            let st0 = diff_fold(p.push(h));
            let st = diff_fold(p.push(h) + m);
            let b = st0.lines.len() as int;
            &&& st.old_start == st0.old_start
            &&& st.new_start == st0.new_start
            &&& st.lines.len() >= b
            &&& st.lines.take(b) == st0.lines
            &&& st.old_n == st0.old_start + count_not(st.lines, b, st.lines.len() as int, DiffLineKind::Add)
            &&& st.new_n == st0.new_start + count_not(st.lines, b, st.lines.len() as int, DiffLineKind::Del)
            &&& forall|k: int| b <= k < st.lines.len() ==> #[trigger] numbered(st.lines, b, k, st0.old_start, st0.new_start)
        }),
    decreases m.len(),
{
    let a = p.push(h);
    assert(a.drop_last() =~= p);
    let st0 = diff_fold(a);
    let b = st0.lines.len() as int;
    if m.len() == 0 {
        assert(a + m =~= a);
        assert(st0.lines.take(b) =~= st0.lines);
    } else {
        let m0 = m.drop_last();
        assert forall|i: int| 0 <= i < m0.len() implies !has_prefix(#[trigger] m0[i], "@@ "@) by {
            assert(m0[i] == m[i]);
        }
        lemma_hunk_numbers(p, h, m0);
        assert((a + m).drop_last() =~= a + m0);
        let x = m[m.len() - 1];
        assert((a + m).last() == x);
        assert(!has_prefix(x, "@@ "@));
        let prev = diff_fold(a + m0);
        let st = diff_step(prev, x);
        assert(diff_fold(a + m) == st);
        let n = prev.lines.len() as int;
        if st.lines.len() > n {
            assert forall|j: int| b <= j < n implies #[trigger] st.lines[j] == prev.lines[j] by {}
            assert forall|k: int| b <= k <= n implies count_not(st.lines, b, k, DiffLineKind::Add)
                == count_not(prev.lines, b, k, DiffLineKind::Add) && count_not(st.lines, b, k, DiffLineKind::Del)
                == count_not(prev.lines, b, k, DiffLineKind::Del) by {
                lemma_count_same(st.lines, prev.lines, b, k, DiffLineKind::Add);
                lemma_count_same(st.lines, prev.lines, b, k, DiffLineKind::Del);
            }
            assert forall|k: int| b <= k < st.lines.len() implies #[trigger] numbered(st.lines, b, k, st0.old_start, st0.new_start) by {
                if k < n {
                    assert(numbered(prev.lines, b, k, st0.old_start, st0.new_start));
                }
            }
            assert(st.lines.take(b) =~= prev.lines.take(b));
        } else {
            assert(st.lines == prev.lines);
        }
    }
}

/// Line numbers in a hunk: after a hunk header, with no further header,
/// each line's old number is the header's old start plus the lines before
/// it in the hunk that are not added lines (an added line leaves the old
/// count where it was and has no old number), and each line's new number is
/// the header's new start plus the lines before it that are not removed
/// lines (a removed line has no new number).  The lines before the hunk are
/// kept as they were.
pub proof fn hunk_line_numbers(p: Seq<Seq<char>>, h: Seq<char>, m: Seq<Seq<char>>)
    requires
        has_prefix(h, "@@ "@),
        no_hunk_header(m),
    ensures
        ({
            let b = diff_fold(p.push(h)).lines.len() as int;
            let st = diff_fold(p.push(h) + m);
            &&& st.lines.len() >= b
            &&& st.lines.take(b) == diff_fold(p.push(h)).lines
            &&& forall|k: int|
                b <= k < st.lines.len() ==> #[trigger] numbered(
                    st.lines,
                    b,
                    k,
                    header_ranges(h).0.0 as int,
                    header_ranges(h).1.0 as int,
                )
        }),
{
    lemma_hunk_numbers(p, h, m);
    assert(p.push(h).drop_last() =~= p);
    assert(p.push(h).last() == h);
}

} // verus!
