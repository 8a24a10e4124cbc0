//! The reasoning-tag splitter over a whole stream: what it emits does not
//! depend on where the stream is cut into chunks.
use vstd::prelude::*;

use crate::offsets::{
    byte_count, byte_offset, ceil_index, char_width, lemma_ceil_index, lemma_encode_concat,
    lemma_offset_full, lemma_offset_increasing, lemma_offset_skip, lemma_offset_step,
};
use crate::text::{find_char, has_char, lemma_find_char, lemma_find_char_at, lemma_has_char};
use crate::think::{
    close_tags, lemma_find_from, next_tag, occurs_at, open_tags, split, tail_start,
};

verus! {

// ── Flattened output ────────────────────────────────────────────────────────

/// The characters of `s`, each with the flag `f`.
pub open spec fn tagged(f: bool, s: Seq<char>) -> Seq<(bool, char)> {
    s.map_values(|c: char| (f, c))
}

/// Each character the slices hold, in order, with the flag of its slice.
pub open spec fn flat(out: Seq<(bool, Seq<char>)>) -> Seq<(bool, char)>
    decreases out.len(),
{
    if out.len() == 0 {
        Seq::empty()
    } else {
        flat(out.drop_last()) + tagged(out.last().0, out.last().1)
    }
}

proof fn lemma_tagged_concat(f: bool, x: Seq<char>, y: Seq<char>)
    ensures
        tagged(f, x + y) == tagged(f, x) + tagged(f, y),
{
    assert(tagged(f, x + y) =~= tagged(f, x) + tagged(f, y));
}

proof fn lemma_flat_concat(a: Seq<(bool, Seq<char>)>, b: Seq<(bool, Seq<char>)>)
    ensures
        flat(a + b) == flat(a) + flat(b),
    decreases b.len(),
{
    if b.len() == 0 {
        assert(a + b =~= a);
        assert(flat(a) + flat(b) =~= flat(a));
    } else {
        lemma_flat_concat(a, b.drop_last());
        assert((a + b).drop_last() =~= a + b.drop_last());
        assert((a + b).last() == b.last());
        assert(flat(a) + flat(b) =~= flat(a) + flat(b.drop_last()) + tagged(b.last().0, b.last().1));
    }
}

proof fn lemma_flat_one(f: bool, x: Seq<char>)
    ensures
        flat(seq![(f, x)]) == tagged(f, x),
{
    let one = seq![(f, x)];
    assert(one.drop_last() =~= Seq::<(bool, Seq<char>)>::empty());
    assert(one.last() == (f, x));
    assert(flat(one.drop_last()) == Seq::<(bool, char)>::empty());
    assert(flat(one) == flat(one.drop_last()) + tagged(f, x));
    assert(Seq::<(bool, char)>::empty() + tagged(f, x) =~= tagged(f, x));
}

// ── Tags ────────────────────────────────────────────────────────────────────

/// The tags that end mode `m`.
pub open spec fn mode_tags(m: bool) -> (Seq<char>, Seq<char>) {
    if m {
        close_tags()
    } else {
        open_tags()
    }
}

/// A tag that ends mode `m` starts at index `j` of `s`.
pub open spec fn tag_at(m: bool, s: Seq<char>, j: int) -> bool {
    occurs_at(s, mode_tags(m).0, j) || occurs_at(s, mode_tags(m).1, j)
}

/// The shape of a tag: `<` first and nowhere else, one byte per character,
/// at most eleven characters.
pub open spec fn tag_shaped(t: Seq<char>) -> bool {
    &&& 7 <= t.len() <= 11
    &&& t[0] == '<'
    &&& forall|k: int| 1 <= k < t.len() ==> #[trigger] t[k] != '<'
    &&& forall|k: int| 0 <= k < t.len() ==> char_width(#[trigger] t[k]) == 1
}

proof fn lemma_tag_shape(m: bool)
    ensures
        tag_shaped(mode_tags(m).0),
        tag_shaped(mode_tags(m).1),
        mode_tags(m).0.len() < mode_tags(m).1.len(),
        mode_tags(m).0[mode_tags(m).0.len() - 1] == '>',
        mode_tags(m).1[mode_tags(m).0.len() - 1] != '>',
{
    reveal_strlit("<think>");
    reveal_strlit("<thinking>");
    reveal_strlit("</think>");
    reveal_strlit("</thinking>");
}

/// What `next_tag` finds: the earliest tag ending mode `m` and its length,
/// or none when no such tag occurs.
proof fn lemma_next_tag(m: bool, s: Seq<char>)
    ensures
        match next_tag(m, s) {
            Some((i, l)) => {
                &&& 0 <= i
                &&& (occurs_at(s, mode_tags(m).0, i) && l == mode_tags(m).0.len()) || (occurs_at(
                    s,
                    mode_tags(m).1,
                    i,
                ) && l == mode_tags(m).1.len())
                &&& forall|j: int| j < i ==> !#[trigger] tag_at(m, s, j)
            },
            None => forall|j: int| !#[trigger] tag_at(m, s, j),
        },
{
    let (a, b) = mode_tags(m);
    lemma_find_from(s, a, 0);
    lemma_find_from(s, b, 0);
}

/// Two tags ending the same mode never start at the same index.
proof fn lemma_tags_apart(m: bool, s: Seq<char>, i: int)
    ensures
        !(occurs_at(s, mode_tags(m).0, i) && occurs_at(s, mode_tags(m).1, i)),
{
    lemma_tag_shape(m);
    let (a, b) = mode_tags(m);
    if occurs_at(s, a, i) && occurs_at(s, b, i) {
        assert(s.subrange(i, i + a.len())[a.len() - 1] == a[a.len() - 1]);
        assert(s.subrange(i, i + b.len())[a.len() - 1] == b[a.len() - 1]);
    }
}

/// The tag at `i`, with none before it, is the one `next_tag` finds.
proof fn lemma_next_tag_at(m: bool, s: Seq<char>, i: int, l: int)
    requires
        0 <= i,
        (occurs_at(s, mode_tags(m).0, i) && l == mode_tags(m).0.len()) || (occurs_at(
            s,
            mode_tags(m).1,
            i,
        ) && l == mode_tags(m).1.len()),
        forall|j: int| j < i ==> !#[trigger] tag_at(m, s, j),
    ensures
        next_tag(m, s) == Some((i, l)),
{
    lemma_next_tag(m, s);
    lemma_tags_apart(m, s, i);
    let (a, b) = mode_tags(m);
    lemma_find_from(s, a, 0);
    lemma_find_from(s, b, 0);
    match next_tag(m, s) {
        Some((k, lk)) => {
            assert(!(k < i)) by {
                if k < i {
                    assert(tag_at(m, s, k));
                }
            }
            assert(!(i < k)) by {
                if i < k {
                    assert(tag_at(m, s, i));
                }
            }
        },
        None => {
            assert(tag_at(m, s, i));
        },
    }
}

/// Without any tag ending mode `m`, `next_tag` finds none.
proof fn lemma_next_tag_none(m: bool, s: Seq<char>)
    requires
        forall|j: int| !#[trigger] tag_at(m, s, j),
    ensures
        next_tag(m, s) is None,
{
    lemma_next_tag(m, s);
    match next_tag(m, s) {
        Some((i, l)) => {
            assert(tag_at(m, s, i));
        },
        None => {},
    }
}

proof fn lemma_occurs_shift(x: Seq<char>, y: Seq<char>, t: Seq<char>, k: int)
    requires
        0 <= k,
    ensures
        occurs_at(x + y, t, x.len() + k) == occurs_at(y, t, k),
{
    if k + t.len() <= y.len() {
        assert((x + y).subrange(x.len() + k, x.len() + k + t.len()) =~= y.subrange(k, k + t.len()));
    }
}

proof fn lemma_tag_shift(m: bool, x: Seq<char>, y: Seq<char>, k: int)
    requires
        0 <= k,
    ensures
        tag_at(m, x + y, x.len() + k) == tag_at(m, y, k),
{
    lemma_occurs_shift(x, y, mode_tags(m).0, k);
    lemma_occurs_shift(x, y, mode_tags(m).1, k);
}

proof fn lemma_occurs_extend(s: Seq<char>, u: Seq<char>, t: Seq<char>, j: int)
    requires
        occurs_at(s, t, j),
    ensures
        occurs_at(s + u, t, j),
{
    assert((s + u).subrange(j, j + t.len()) =~= s.subrange(j, j + t.len()));
}

/// A tag that starts inside `s` and runs past its end starts with the
/// last `<` of `s`, within its last ten bytes.
proof fn lemma_straddle(m: bool, s: Seq<char>, u: Seq<char>, j: int)
    requires
        0 <= j < s.len(),
        tag_at(m, s + u, j),
        !tag_at(m, s, j),
    ensures
        s[j] == '<',
        byte_offset(s, j) >= tail_start(s),
{
    lemma_tag_shape(m);
    let (a, b) = mode_tags(m);
    let t = if occurs_at(s + u, a, j) {
        a
    } else {
        b
    };
    assert(occurs_at(s + u, t, j));
    assert(tag_shaped(t));
    assert(j + t.len() > s.len()) by {
        if j + t.len() <= s.len() {
            assert(s.subrange(j, j + t.len()) =~= (s + u).subrange(j, j + t.len()));
        }
    }
    assert(s[j] == (s + u).subrange(j, j + t.len())[0]);
    let rest = s.skip(j);
    assert forall|k: int| 0 <= k < rest.len() implies char_width(#[trigger] rest[k]) == 1 by {
        assert(rest[k] == (s + u).subrange(j, j + t.len())[k]);
        assert(rest[k] == t[k]);
    }
    lemma_ascii_bytes(rest, rest.len() as int);
    lemma_offset_full(rest);
    lemma_offset_skip(s, j, s.len() - j);
    lemma_offset_full(s);
    assert(rest.take(rest.len() as int) =~= rest);
}

// ── Bytes and the held-back tail ────────────────────────────────────────────

/// One byte per character: each offset is the index.
proof fn lemma_ascii_bytes(u: Seq<char>, k: int)
    requires
        0 <= k <= u.len(),
        forall|i: int| 0 <= i < u.len() ==> char_width(#[trigger] u[i]) == 1,
    ensures
        byte_offset(u, k) == k,
    decreases k,
{
    if k == 0 {
        assert(u.take(0) =~= Seq::<char>::empty());
        assert(byte_offset(u, 0) == 0) by {
            lemma_offset_full(Seq::<char>::empty());
        }
    } else {
        lemma_ascii_bytes(u, k - 1);
        lemma_offset_step(u, k - 1);
    }
}

proof fn lemma_offset_prefix(x: Seq<char>, y: Seq<char>, j: int)
    requires
        0 <= j <= x.len(),
    ensures
        byte_offset(x + y, j) == byte_offset(x, j),
{
    assert((x + y).take(j) =~= x.take(j));
}

proof fn lemma_offset_after(x: Seq<char>, y: Seq<char>, k: int)
    requires
        0 <= k <= y.len(),
    ensures
        byte_offset(x + y, x.len() + k) == byte_count(x) + byte_offset(y, k),
{
    assert((x + y).take(x.len() + k) =~= x + y.take(k));
    lemma_encode_concat(x, y.take(k));
}

proof fn lemma_bytes_concat(x: Seq<char>, y: Seq<char>)
    ensures
        byte_count(x + y) == byte_count(x) + byte_count(y),
{
    lemma_encode_concat(x, y);
}

proof fn lemma_offset_le_count(x: Seq<char>, j: int)
    requires
        0 <= j <= x.len(),
    ensures
        byte_offset(x, j) <= byte_count(x),
{
    lemma_offset_full(x);
    if j < x.len() {
        lemma_offset_increasing(x, j, x.len() as int);
    }
}

/// The first index of the held-back tail: the first character that starts
/// in the last ten bytes.
pub open spec fn tail_index(s: Seq<char>) -> int {
    ceil_index(s, tail_start(s), 0)
}

proof fn lemma_ceil_at_least(s: Seq<char>, b: int, k: int, c: int)
    requires
        0 <= k <= c <= s.len(),
        forall|j: int| k <= j < c ==> #[trigger] byte_offset(s, j) < b,
    ensures
        ceil_index(s, b, k) >= c,
    decreases s.len() - k,
{
    lemma_ceil_index(s, b, k);
    if k < c {
        assert(byte_offset(s, k) < b);
        lemma_ceil_at_least(s, b, k + 1, c);
    }
}

proof fn lemma_ceil_at_most(s: Seq<char>, b: int, j: int)
    requires
        0 <= j <= s.len(),
        j < s.len() ==> byte_offset(s, j) >= b,
    ensures
        ceil_index(s, b, 0) <= j,
{
    lemma_ceil_index(s, b, 0);
    if ceil_index(s, b, 0) > j {
        assert(byte_offset(s, j) < b);
    }
}

/// Text appended after `s` moves the tail's first index no earlier.
proof fn lemma_tail_index_grows(s: Seq<char>, u: Seq<char>)
    ensures
        tail_index(s) <= tail_index(s + u),
        tail_index(s) <= s.len(),
{
    lemma_ceil_index(s, tail_start(s), 0);
    lemma_bytes_concat(s, u);
    let c = tail_index(s);
    assert forall|j: int| 0 <= j < c implies #[trigger] byte_offset(s + u, j) < tail_start(s + u) by {
        lemma_offset_prefix(s, u, j);
        assert(byte_offset(s, j) < tail_start(s));
    }
    lemma_ceil_at_least(s + u, tail_start(s + u), 0, c);
}

/// Where the tail of `x + y` starts against that of `y`: no later than
/// `y`'s own, and earlier only inside `x` when `y` is all tail.
proof fn lemma_tail_index_join(x: Seq<char>, y: Seq<char>)
    ensures
        tail_index(x + y) <= x.len() + tail_index(y),
        tail_index(x + y) < x.len() + tail_index(y) ==> tail_index(y) == 0 && tail_index(x + y)
            <= x.len(),
        0 <= tail_index(y) <= y.len(),
{
    lemma_bytes_concat(x, y);
    lemma_ceil_index(y, tail_start(y), 0);
    lemma_ceil_index(x + y, tail_start(x + y), 0);
    let ky = tail_index(y);
    if byte_count(y) > 10 {
        assert forall|j: int| 0 <= j < x.len() + ky implies #[trigger] byte_offset(x + y, j)
            < tail_start(x + y) by {
            if j < x.len() {
                lemma_offset_prefix(x, y, j);
                lemma_offset_le_count(x, j);
            } else {
                lemma_offset_after(x, y, j - x.len());
                assert(byte_offset(y, j - x.len()) < tail_start(y));
            }
        }
        lemma_ceil_at_least(x + y, tail_start(x + y), 0, x.len() + ky);
        if ky < y.len() {
            lemma_offset_after(x, y, ky);
        }
        lemma_ceil_at_most(x + y, tail_start(x + y), x.len() + ky);
    } else {
        lemma_offset_full(Seq::<char>::empty());
        assert(y.take(0) =~= Seq::<char>::empty());
        assert(ky == 0);
        lemma_offset_after(x, y, 0);
        lemma_ceil_at_most(x + y, tail_start(x + y), x.len() as int);
    }
}

proof fn lemma_find_char_after(p: Seq<char>, q: Seq<char>, c: char)
    requires
        forall|j: int| 0 <= j < p.len() ==> #[trigger] p[j] != c,
    ensures
        find_char(p + q, c) == p.len() + find_char(q, c),
{
    lemma_find_char(q, c);
    let i = p.len() + find_char(q, c);
    assert forall|j: int| 0 <= j < i implies #[trigger] (p + q)[j] != c by {
        if j >= p.len() {
            assert((p + q)[j] == q[j - p.len()]);
        }
    }
    lemma_find_char_at(p + q, c, i);
}

// ── Splitting a joined text ─────────────────────────────────────────────────

/// Text `x` that no tag starts in and that has no `<` inside the tail of
/// `x + y` is emitted whole, in the current mode, ahead of what `y` gives;
/// the mode and the tail after it are those after `y`.
#[verifier::spinoff_prover]
#[verifier::rlimit(60)]
proof fn lemma_split_prefix(m: bool, x: Seq<char>, y: Seq<char>)
    requires
        forall|j: int| j < x.len() ==> !#[trigger] tag_at(m, x + y, j),
        forall|j: int| tail_index(x + y) <= j < x.len() ==> #[trigger] x[j] != '<',
    ensures
        flat(split(m, x + y).out) == tagged(m, x) + flat(split(m, y).out),
        split(m, x + y).in_think == split(m, y).in_think,
        split(m, x + y).pending == split(m, y).pending,
{
    let s = x + y;
    if x.len() == 0 {
        assert(s =~= y);
        assert(tagged(m, x) =~= Seq::<(bool, char)>::empty());
        assert(tagged(m, x) + flat(split(m, y).out) =~= flat(split(m, y).out));
        return;
    }
    lemma_next_tag(m, y);
    match next_tag(m, y) {
        Some((j, l)) => {
            lemma_tag_shape(m);
            lemma_occurs_shift(x, y, mode_tags(m).0, j);
            lemma_occurs_shift(x, y, mode_tags(m).1, j);
            assert forall|k: int| k < x.len() + j implies !#[trigger] tag_at(m, s, k) by {
                if k >= x.len() {
                    lemma_tag_shift(m, x, y, k - x.len());
                    assert(!tag_at(m, y, k - x.len()));
                }
            }
            lemma_next_tag_at(m, s, x.len() + j, l);
            assert(0 < l && j + l <= y.len());
            assert(s.skip(x.len() + j + l) =~= y.skip(j + l));
            assert(s.take(x.len() + j) =~= x + y.take(j));
            lemma_tagged_concat(m, x, y.take(j));
            let rest = split(!m, y.skip(j + l));
            lemma_flat_concat(seq![(m, s.take(x.len() + j))], rest.out);
            lemma_flat_one(m, s.take(x.len() + j));
            if j > 0 {
                lemma_flat_concat(seq![(m, y.take(j))], rest.out);
                lemma_flat_one(m, y.take(j));
            } else {
                assert(y.take(0) =~= Seq::<char>::empty());
                assert(tagged(m, y.take(0)) =~= Seq::<(bool, char)>::empty());
            }
            assert(flat(split(m, s).out) == tagged(m, x) + tagged(m, y.take(j)) + flat(rest.out));
        },
        None => {
            assert forall|k: int| !#[trigger] tag_at(m, s, k) by {
                if k >= x.len() {
                    lemma_tag_shift(m, x, y, k - x.len());
                }
            }
            lemma_next_tag_none(m, s);
            lemma_tail_index_join(x, y);
            let kk = tail_index(s);
            let ky = tail_index(y);
            lemma_ceil_index(s, tail_start(s), 0);
            let e = x.len() + ky;
            let p = s.subrange(kk, e);
            let q = y.skip(ky);
            assert(s.skip(kk) =~= p + q);
            assert forall|i: int| 0 <= i < p.len() implies #[trigger] p[i] != '<' by {
                assert(p[i] == x[kk + i]);
            }
            lemma_find_char_after(p, q, '<');
            lemma_has_char(s.skip(kk), '<');
            lemma_has_char(q, '<');
            lemma_find_char(q, '<');
            if has_char(q, '<') {
                let lty = ky + find_char(q, '<');
                assert(kk + find_char(s.skip(kk), '<') == x.len() + lty);
                assert(s.skip(x.len() + lty) =~= y.skip(lty));
                assert(s.take(x.len() + lty) =~= x + y.take(lty));
                lemma_tagged_concat(m, x, y.take(lty));
                lemma_flat_one(m, s.take(x.len() + lty));
                assert(y.len() > 0);
                if lty > 0 {
                    lemma_flat_one(m, y.take(lty));
                } else {
                    assert(y.take(0) =~= Seq::<char>::empty());
                    assert(tagged(m, y.take(0)) =~= Seq::<(bool, char)>::empty());
                    assert(tagged(m, x) + Seq::<(bool, char)>::empty() =~= tagged(m, x));
                }
            } else {
                lemma_flat_one(m, s);
                lemma_tagged_concat(m, x, y);
                if y.len() > 0 {
                    lemma_flat_one(m, y);
                } else {
                    assert(y =~= Seq::<char>::empty());
                    assert(tagged(m, y) =~= Seq::<(bool, char)>::empty());
                }
            }
        },
    }
}

/// Splitting `s` and then the held tail followed by `t` emits, in all, what
/// splitting `s + t` at once emits, and ends in the same mode with the same
/// tail.
#[verifier::spinoff_prover]
#[verifier::rlimit(60)]
proof fn lemma_split_concat(m: bool, s: Seq<char>, t: Seq<char>)
    ensures
        ({
            let r1 = split(m, s);
            let r2 = split(r1.in_think, r1.pending + t);
            let r = split(m, s + t);
            &&& flat(r1.out) + flat(r2.out) == flat(r.out)
            &&& r2.in_think == r.in_think
            &&& r2.pending == r.pending
        }),
    decreases s.len(),
{
    let r1 = split(m, s);
    if s.len() == 0 {
        assert(s + t =~= t);
        assert(r1.pending + t =~= t);
        assert(flat(r1.out) + flat(split(m, t).out) =~= flat(split(m, t).out));
        return;
    }
    lemma_next_tag(m, s);
    lemma_tag_shape(m);
    match next_tag(m, s) {
        Some((i, l)) => {
            assert(0 < l && i + l <= s.len());
            let (a, b) = mode_tags(m);
            if occurs_at(s, a, i) && l == a.len() {
                lemma_occurs_extend(s, t, a, i);
            } else {
                lemma_occurs_extend(s, t, b, i);
            }
            assert forall|j: int| j < i implies !#[trigger] tag_at(m, s + t, j) by {
                if tag_at(m, s + t, j) {
                    assert(!tag_at(m, s, j));
                    if 0 <= j {
                        lemma_straddle(m, s, t, j);
                        let tt = if occurs_at(s + t, a, j) {
                            a
                        } else {
                            b
                        };
                        assert(occurs_at(s + t, tt, j));
                        assert(j + tt.len() > s.len()) by {
                            if j + tt.len() <= s.len() {
                                assert(s.subrange(j, j + tt.len()) =~= (s + t).subrange(
                                    j,
                                    j + tt.len(),
                                ));
                            }
                        }
                        assert((s + t)[i] == (s + t).subrange(j, j + tt.len())[i - j]);
                        let ti = if occurs_at(s, a, i) && l == a.len() {
                            a
                        } else {
                            b
                        };
                        assert(s[i] == s.subrange(i, i + ti.len())[0]);
                    }
                }
            }
            lemma_next_tag_at(m, s + t, i, l);
            assert((s + t).skip(i + l) =~= s.skip(i + l) + t);
            assert((s + t).take(i) =~= s.take(i));
            lemma_split_concat(!m, s.skip(i + l), t);
            let rest = split(!m, s.skip(i + l));
            let whole = split(!m, s.skip(i + l) + t);
            if i > 0 {
                lemma_flat_concat(seq![(m, s.take(i))], rest.out);
                lemma_flat_concat(seq![(m, s.take(i))], whole.out);
            } else {
                assert(r1.out == rest.out);
            }
        },
        None => {
            lemma_tail_index_grows(s, t);
            lemma_ceil_index(s, tail_start(s), 0);
            let kt = tail_index(s);
            let tail = s.skip(kt);
            lemma_has_char(tail, '<');
            lemma_find_char(tail, '<');
            let lt = if has_char(tail, '<') {
                kt + find_char(tail, '<')
            } else {
                s.len() as int
            };
            let x = s.take(lt);
            let y = s.skip(lt) + t;
            assert(x + y =~= s + t);
            assert forall|j: int| tail_index(x + y) <= j < x.len() implies #[trigger] x[j] != '<' by {
                assert(x[j] == s[j]);
                assert(s[j] == tail[j - kt]);
            }
            assert forall|j: int| j < x.len() implies !#[trigger] tag_at(m, x + y, j) by {
                if tag_at(m, x + y, j) {
                    assert(!tag_at(m, s, j));
                    if 0 <= j {
                        lemma_straddle(m, s, t, j);
                        lemma_ceil_at_most(s, tail_start(s), j);
                        assert(s[j] == tail[j - kt]);
                    }
                }
            }
            lemma_split_prefix(m, x, y);
            if has_char(tail, '<') {
                assert(r1.pending == s.skip(lt));
                if lt > 0 {
                    lemma_flat_one(m, x);
                } else {
                    assert(x =~= Seq::<char>::empty());
                    assert(tagged(m, x) =~= Seq::<(bool, char)>::empty());
                }
            } else {
                assert(x =~= s);
                assert(s.skip(lt) =~= Seq::<char>::empty());
                assert(y =~= t);
                assert(r1.pending + t =~= t);
                lemma_flat_one(m, s);
            }
        },
    }
}

// ── Whole streams ───────────────────────────────────────────────────────────

/// The chunks joined in order.
pub open spec fn joined(chunks: Seq<Seq<char>>) -> Seq<char>
    decreases chunks.len(),
{
    if chunks.len() == 0 {
        Seq::empty()
    } else {
        chunks[0] + joined(chunks.drop_first())
    }
}

/// Pushing the chunks in turn from mode `m` with `held` held back: every
/// character emitted, with its flag, then the mode and the tail left.
pub open spec fn pushes(m: bool, held: Seq<char>, chunks: Seq<Seq<char>>) -> (
    Seq<(bool, char)>,
    bool,
    Seq<char>,
)
    decreases chunks.len(),
{
    if chunks.len() == 0 {
        (Seq::empty(), m, held)
    } else {
        let r = split(m, held + chunks[0]);
        let rest = pushes(r.in_think, r.pending, chunks.drop_first());
        (flat(r.out) + rest.0, rest.1, rest.2)
    }
}

/// The stream out of pushing the chunks from a fresh classifier and then
/// flushing: each character with its flag, the held tail last in the mode
/// reached.
pub open spec fn stream_output(chunks: Seq<Seq<char>>) -> Seq<(bool, char)> {
    let p = pushes(false, Seq::empty(), chunks);
    p.0 + tagged(p.1, p.2)
}

proof fn lemma_pushes(m: bool, held: Seq<char>, chunks: Seq<Seq<char>>)
    requires
        chunks.len() > 0,
    ensures
        ({
            let r = split(m, held + joined(chunks));
            pushes(m, held, chunks) == (flat(r.out), r.in_think, r.pending)
        }),
    decreases chunks.len(),
{
    let c = chunks[0];
    let cs = chunks.drop_first();
    let r = split(m, held + c);
    assert(joined(chunks) == c + joined(cs));
    if cs.len() == 0 {
        assert(joined(cs) == Seq::<char>::empty());
        assert(held + joined(chunks) =~= held + c);
        assert(pushes(r.in_think, r.pending, cs) == (Seq::<(bool, char)>::empty(), r.in_think, r.pending));
        assert(flat(r.out) + Seq::<(bool, char)>::empty() =~= flat(r.out));
    } else {
        lemma_pushes(r.in_think, r.pending, cs);
        lemma_split_concat(m, held + c, joined(cs));
        assert(held + c + joined(cs) =~= held + joined(chunks));
    }
}

/// The reasoning-tag splitter does not depend on where the stream is cut:
/// pushing any chunks in turn and then flushing emits, character for
/// character and flag for flag, what pushing them joined in one chunk and
/// flushing emits.
pub proof fn stream_is_chunking_independent(chunks: Seq<Seq<char>>)
    ensures
        stream_output(chunks) == stream_output(seq![joined(chunks)]),
{
    let one = seq![joined(chunks)];
    assert(one.drop_first() =~= Seq::<Seq<char>>::empty());
    assert(joined(one.drop_first()) =~= Seq::<char>::empty());
    assert(joined(one) =~= joined(chunks));
    lemma_pushes(false, Seq::empty(), one);
    if chunks.len() > 0 {
        lemma_pushes(false, Seq::empty(), chunks);
    } else {
        assert(joined(chunks) =~= Seq::<char>::empty());
        assert(Seq::<char>::empty() + joined(one) =~= Seq::<char>::empty());
        assert(stream_output(chunks) =~= Seq::<(bool, char)>::empty());
        assert(flat(split(false, Seq::<char>::empty()).out) =~= Seq::<(bool, char)>::empty());
        assert(stream_output(one) =~= Seq::<(bool, char)>::empty());
    }
}

} // verus!
