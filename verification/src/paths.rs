//! Unix path components, as `std::path::Path::components` yields them.
use vstd::prelude::*;

use crate::text::{chars_of, slice_of};

verus! {

/// The pieces of `s[start..]` between `c`s, where `s[start..i]` holds no `c`.
pub open spec fn pieces_from(s: Seq<char>, c: char, start: int, i: int) -> Seq<Seq<char>>
    decreases s.len() - i,
{
    if i < 0 || i >= s.len() {
        seq![s.subrange(start, s.len() as int)]
    } else if s[i] == c {
        seq![s.subrange(start, i)] + pieces_from(s, c, i + 1, i + 1)
    } else {
        pieces_from(s, c, start, i + 1)
    }
}

/// `s.split(c)`: the pieces between `c`s, empty ones included.
pub open spec fn pieces(s: Seq<char>, c: char) -> Seq<Seq<char>> {
    pieces_from(s, c, 0, 0)
}

/// Split `v` at every `c`.
pub fn split_all(v: &Vec<char>, c: char) -> (out: Vec<Vec<char>>)
    ensures
        out.len() == pieces(v@, c).len(),
        forall|k: int| 0 <= k < out.len() ==> #[trigger] out[k]@ == pieces(v@, c)[k],
{
    let n = v.len();
    let mut out: Vec<Vec<char>> = Vec::new();
    let mut start: usize = 0;
    let mut i: usize = 0;
    while i < n
        invariant
            n == v.len(),
            start <= i <= n,
            out.len() + pieces_from(v@, c, start as int, i as int).len() == pieces(v@, c).len(),
            forall|k: int| 0 <= k < out.len() ==> #[trigger] out[k]@ == pieces(v@, c)[k],
            forall|k: int|
                0 <= k < pieces_from(v@, c, start as int, i as int).len() ==> #[trigger] pieces_from(
                    v@,
                    c,
                    start as int,
                    i as int,
                )[k] == pieces(v@, c)[out.len() + k],
        decreases n - i,
    {
        if v[i] == c {
            let piece = slice_of(v, start, i);
            proof {
                let ghost rest = pieces_from(v@, c, (i + 1) as int, (i + 1) as int);
                let ghost here = pieces_from(v@, c, start as int, i as int);
                assert(here == seq![piece@] + rest);
                assert(here[0] == piece@);
                assert forall|k: int| 0 <= k < rest.len() implies #[trigger] rest[k]
                    == pieces(v@, c)[out.len() + 1 + k] by {
                    assert(here[k + 1] == rest[k]);
                }
            }
            out.push(piece);
            start = i + 1;
        }
        i += 1;
    }
    let piece = slice_of(v, start, n);
    proof {
        assert(pieces_from(v@, c, start as int, n as int)[0] == piece@);
    }
    out.push(piece);
    out
}

/// The normal components among `ps`: empty pieces and `.` are dropped.
pub open spec fn normal_parts(ps: Seq<Seq<char>>) -> Seq<Seq<char>>
    decreases ps.len(),
{
    if ps.len() == 0 {
        Seq::empty()
    } else if ps.last().len() == 0 || ps.last() == "."@ {
        normal_parts(ps.drop_last())
    } else {
        normal_parts(ps.drop_last()).push(ps.last())
    }
}

/// The components of a path: `/` for the root, `.` for a leading current
/// directory, then the other pieces between separators except empty ones and
/// `.` (a `..` piece is the parent component).
pub open spec fn components(p: Seq<char>) -> Seq<Seq<char>> {
    let ps = pieces(p, '/');
    if p.len() > 0 && p[0] == '/' {
        seq!["/"@] + normal_parts(ps.drop_first())
    } else if ps[0] == "."@ {
        seq!["."@] + normal_parts(ps.drop_first())
    } else {
        normal_parts(ps)
    }
}

fn is_dot(v: &Vec<char>) -> (r: bool)
    ensures
        r == (v@ == "."@),
{
    proof {
        reveal_strlit(".");
    }
    if v.len() == 1 && v[0] == '.' {
        assert(v@ =~= "."@);
        true
    } else {
        false
    }
}

/// The components of `p` as `Path::components` yields them.
pub fn path_components(p: &str) -> (out: Vec<Vec<char>>)
    ensures
        out.len() == components(p@).len(),
        forall|k: int| 0 <= k < out.len() ==> #[trigger] out[k]@ == components(p@)[k],
{
    let v = chars_of(p);
    let ps = split_all(&v, '/');
    proof {
        reveal_strlit("/");
        reveal_strlit(".");
        assert(pieces(v@, '/').len() >= 1) by {
            lemma_pieces_nonempty(v@, '/', 0, 0);
        }
    }
    let mut out: Vec<Vec<char>> = Vec::new();
    let first: usize;
    let ghost lead: Seq<Seq<char>>;
    if v.len() > 0 && v[0] == '/' {
        out.push(vec!['/']);
        first = 1;
        proof {
            lead = seq!["/"@];
            assert(out[0]@ =~= "/"@);
        }
    } else if is_dot(&ps[0]) {
        out.push(vec!['.']);
        first = 1;
        proof {
            lead = seq!["."@];
            assert(out[0]@ =~= "."@);
        }
    } else {
        first = 0;
        proof {
            lead = Seq::empty();
        }
    }
    let ghost all = pieces(v@, '/');
    let mut k: usize = first;
    while k < ps.len()
        invariant
            first <= k <= ps.len(),
            ps.len() == all.len(),
            all == pieces(v@, '/'),
            forall|j: int| 0 <= j < ps.len() ==> #[trigger] ps[j]@ == all[j],
            out.len() == lead.len() + normal_parts(all.subrange(first as int, k as int)).len(),
            forall|j: int| 0 <= j < lead.len() ==> #[trigger] out[j]@ == lead[j],
            forall|j: int|
                0 <= j < normal_parts(all.subrange(first as int, k as int)).len() ==> #[trigger] out[lead.len()
                    + j]@ == normal_parts(all.subrange(first as int, k as int))[j],
        decreases ps.len() - k,
    {
        assert(all.subrange(first as int, k + 1).drop_last() =~= all.subrange(first as int, k as int));
        if ps[k].len() > 0 && !is_dot(&ps[k]) {
            let piece = slice_of(&ps[k], 0, ps[k].len());
            assert(piece@ =~= ps@[k as int]@);
            out.push(piece);
        }
        k += 1;
    }
    proof {
        assert(all.subrange(first as int, all.len() as int) =~= all.drop_first() || first == 0);
        if first == 0 {
            assert(all.subrange(0, all.len() as int) =~= all);
        } else {
            assert(all.subrange(1, all.len() as int) =~= all.drop_first());
        }
        assert forall|j: int| 0 <= j < out.len() implies #[trigger] out[j]@ == components(v@)[j] by {
            if j < lead.len() {
            } else {
                assert(out[lead.len() + (j - lead.len())]@ == normal_parts(all.subrange(first as int, all.len() as int))[j - lead.len()]);
            }
        }
    }
    out
}

pub proof fn lemma_pieces_nonempty(s: Seq<char>, c: char, start: int, i: int)
    ensures
        pieces_from(s, c, start, i).len() >= 1,
    decreases s.len() - i,
{
    if 0 <= i < s.len() {
        lemma_pieces_nonempty(s, c, if s[i] == c { i + 1 } else { start }, i + 1);
    }
}

} // verus!
