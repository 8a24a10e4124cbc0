//! Chat stream classification: the split of a model's token stream into
//! visible text and reasoning, by `<think>`/`<thinking>` tags that may span
//! chunk boundaries.
use vstd::prelude::*;

use crate::offsets::{
    byte_count, byte_len_of, byte_offset, ceil_char_index, ceil_index, lemma_ceil_index,
    lemma_offset_full, lemma_offset_increasing, lemma_offset_skip,
};
use crate::text::{chars_of, find, find_char, has_char, lemma_find_char, slice_of, string_from};

verus! {

/// Bytes of tail held back while a tag may be forming.
pub const MAX_TAG_LEN: u128 = 10;

/// `t` occurs in `s` at index `i`.
pub open spec fn occurs_at(s: Seq<char>, t: Seq<char>, i: int) -> bool {
    0 <= i && i + t.len() <= s.len() && s.subrange(i, i + t.len()) == t
}

/// The first index at or after `i` where `t` occurs in `s`.
pub open spec fn find_from(s: Seq<char>, t: Seq<char>, i: int) -> Option<int>
    decreases s.len() + 1 - i,
{
    if i < 0 || i + t.len() > s.len() {
        None
    } else if occurs_at(s, t, i) {
        Some(i)
    } else {
        find_from(s, t, i + 1)
    }
}

pub proof fn lemma_find_from(s: Seq<char>, t: Seq<char>, i: int)
    requires
        0 <= i,
    ensures
        match find_from(s, t, i) {
            Some(k) => i <= k && occurs_at(s, t, k) && forall|j: int| i <= j < k ==> !occurs_at(s, t, j),
            None => forall|j: int| i <= j ==> !occurs_at(s, t, j),
        },
    decreases s.len() + 1 - i,
{
    if i + t.len() > s.len() {
    } else if occurs_at(s, t, i) {
    } else {
        lemma_find_from(s, t, i + 1);
    }
}

/// The index of the first occurrence of `t` in `v`.
pub fn find_seq(v: &Vec<char>, t: &Vec<char>) -> (r: Option<usize>)
    ensures
        match r {
            Some(k) => find_from(v@, t@, 0) == Some(k as int),
            None => find_from(v@, t@, 0) is None,
        },
{
    let mut i: usize = 0;
    while i <= v.len() && t.len() <= v.len() - i
        invariant
            find_from(v@, t@, 0) == find_from(v@, t@, i as int),
        decreases v.len() - i,
    {
        let mut j: usize = 0;
        while j < t.len() && v[i + j] == t[j]
            invariant
                i + t.len() <= v.len(),
                j <= t.len(),
                forall|m: int| 0 <= m < j ==> v@[i + m] == t@[m],
            decreases t.len() - j,
        {
            j += 1;
        }
        if j == t.len() {
            assert(v@.subrange(i as int, i + t.len()) =~= t@);
            return Some(i);
        }
        assert(v@.subrange(i as int, i + t.len())[j as int] != t@[j as int]);
        i += 1;
    }
    None
}

pub open spec fn open_tags() -> (Seq<char>, Seq<char>) {
    ("<think>"@, "<thinking>"@)
}

pub open spec fn close_tags() -> (Seq<char>, Seq<char>) {
    ("</think>"@, "</thinking>"@)
}

/// The next tag of the kind that ends the current mode (opening tags in
/// text, closing ones in reasoning): its index and length, the earliest of
/// the two, the shorter on a tie.
pub open spec fn next_tag(in_think: bool, s: Seq<char>) -> Option<(int, int)> {
    let (a, b) = if in_think {
        close_tags()
    } else {
        open_tags()
    };
    match (find_from(s, a, 0), find_from(s, b, 0)) {
        (Some(i), Some(j)) => if j < i {
            Some((j, b.len() as int))
        } else {
            Some((i, a.len() as int))
        },
        (Some(i), None) => Some((i, a.len() as int)),
        (None, Some(j)) => Some((j, b.len() as int)),
        (None, None) => None,
    }
}

/// The outcome of splitting a text: the classified slices (reasoning or
/// not, and the text), the mode after it, and the held-back tail.
pub struct Split {
    pub out: Seq<(bool, Seq<char>)>,
    pub in_think: bool,
    pub pending: Seq<char>,
}

/// The byte from which a `<` may start a partial tag: ten bytes before the end.
pub open spec fn tail_start(s: Seq<char>) -> int {
    if byte_count(s) > MAX_TAG_LEN {
        byte_count(s) - MAX_TAG_LEN
    } else {
        0
    }
}

/// The split of the text `s` when no whole tag is left in it: a `<` that
/// starts in the last ten bytes may start a tag, so the first such `<` and
/// what follows are held back; the rest is emitted in the current mode.
/// (A `<` is one byte, so it always starts a character.)
pub open spec fn split_tail(in_think: bool, s: Seq<char>) -> Split {
    let kt = ceil_index(s, tail_start(s), 0);
    let tail = s.skip(kt);
    if has_char(tail, '<') {
        let lt = kt + find_char(tail, '<');
        Split {
            out: if lt > 0 {
                seq![(in_think, s.take(lt))]
            } else {
                Seq::empty()
            },
            in_think,
            pending: s.skip(lt),
        }
    } else {
        Split { out: seq![(in_think, s)], in_think, pending: Seq::empty() }
    }
}

/// The split of the text `s` starting in mode `in_think`: each tag ends
/// the current slice (an empty slice is not emitted) and flips the mode.
pub open spec fn split(in_think: bool, s: Seq<char>) -> Split
    decreases s.len(),
{
    if s.len() == 0 {
        Split { out: Seq::empty(), in_think, pending: Seq::empty() }
    } else {
        match next_tag(in_think, s) {
            Some((i, l)) => if 0 <= i && 0 < l && i + l <= s.len() {
                let rest = split(!in_think, s.skip(i + l));
                Split {
                    out: if i > 0 {
                        seq![(in_think, s.take(i))] + rest.out
                    } else {
                        rest.out
                    },
                    in_think: rest.in_think,
                    pending: rest.pending,
                }
            } else {
                // Never taken: a tag found lies within the text.
                Split { out: Seq::empty(), in_think, pending: Seq::empty() }
            },
            None => split_tail(in_think, s),
        }
    }
}

/// The classifier never holds back more than ten bytes: whatever the text,
/// the tail it keeps is at most `MAX_TAG_LEN` bytes long.
pub proof fn held_tail_is_short(in_think: bool, s: Seq<char>)
    ensures
        byte_count(split(in_think, s).pending) <= MAX_TAG_LEN,
    decreases s.len(),
{
    if s.len() == 0 {
        assert(byte_count(Seq::<char>::empty()) == 0);
    } else {
        match next_tag(in_think, s) {
            Some((i, l)) => {
                if 0 <= i && 0 < l && i + l <= s.len() {
                    held_tail_is_short(!in_think, s.skip(i + l));
                } else {
                    assert(byte_count(Seq::<char>::empty()) == 0);
                }
            },
            None => {
                let ts = tail_start(s);
                lemma_ceil_index(s, ts, 0);
                let kt = ceil_index(s, ts, 0);
                let tail = s.skip(kt);
                if has_char(tail, '<') {
                    lemma_find_char(tail, '<');
                    let lt = kt + find_char(tail, '<');
                    lemma_offset_skip(s, lt, s.len() - lt);
                    lemma_offset_full(s);
                    lemma_offset_full(s.skip(lt));
                    if kt < lt {
                        lemma_offset_increasing(s, kt, lt);
                    }
                } else {
                    assert(byte_count(Seq::<char>::empty()) == 0);
                }
            },
        }
    }
}

/// The view of classified slices.
pub open spec fn slices_view(v: Seq<(bool, String)>) -> Seq<(bool, Seq<char>)> {
    v.map_values(|p: (bool, String)| (p.0, p.1@))
}

/// The stream classifier: the current mode and the held-back tail.
#[derive(Debug, Clone, Default)]
pub struct ThinkSplitter {
    in_think: bool,
    pending: String,
}

impl ThinkSplitter {
    pub closed spec fn mode(&self) -> bool {
        self.in_think
    }

    pub closed spec fn held(&self) -> Seq<char> {
        self.pending@
    }

    /// A classifier in text mode holding nothing.
    pub fn new() -> (s: Self)
        ensures
            !s.mode(),
            s.held() == Seq::<char>::empty(),
    {
        ThinkSplitter { in_think: false, pending: String::new() }
    }

    /// The split a push of `chunk` makes: of the held tail followed by the chunk.
    pub open spec fn push_split(&self, chunk: Seq<char>) -> Split {
        split(self.mode(), self.held() + chunk)
    }

    /// Push a chunk: the classified slices of the held tail followed by the
    /// chunk, the classifier taking the new mode and tail.
    pub fn push(&mut self, chunk: &str) -> (v: Vec<(bool, String)>)
        ensures
            slices_view(v@) == old(self).push_split(chunk@).out,
            final(self).mode() == old(self).push_split(chunk@).in_think,
            final(self).held() == old(self).push_split(chunk@).pending,
    {
        let joined = self.pending.clone().concat(chunk);
        let combined = chars_of(joined.as_str());
        assert(combined@ == self.pending@ + chunk@);
        let ghost target = split(self.in_think, combined@);
        let open_a = chars_of("<think>");
        let open_b = chars_of("<thinking>");
        let close_a = chars_of("</think>");
        let close_b = chars_of("</thinking>");
        proof {
            reveal_strlit("<think>");
            reveal_strlit("<thinking>");
            reveal_strlit("</think>");
            reveal_strlit("</thinking>");
        }
        let mut th = self.in_think;
        let mut out: Vec<(bool, String)> = Vec::new();
        let mut cursor: usize = 0;
        assert(combined@.skip(0) =~= combined@);
        assert(slices_view(out@) + target.out =~= target.out);
        while cursor < combined.len()
            invariant
                cursor <= combined.len(),
                *self == *old(self),
                target == old(self).push_split(chunk@),
                open_a@ == "<think>"@,
                open_b@ == "<thinking>"@,
                close_a@ == "</think>"@,
                close_b@ == "</thinking>"@,
                open_a@.len() == 7 && open_b@.len() == 10 && close_a@.len() == 8 && close_b@.len() == 11,
                target.out == slices_view(out@) + split(th, combined@.skip(cursor as int)).out,
                target.in_think == split(th, combined@.skip(cursor as int)).in_think,
                target.pending == split(th, combined@.skip(cursor as int)).pending,
            decreases combined.len() - cursor,
        {
            let rest = slice_of(&combined, cursor, combined.len());
            assert(rest@ =~= combined@.skip(cursor as int));
            let (a, b) = if th {
                (&close_a, &close_b)
            } else {
                (&open_a, &open_b)
            };
            let fa = find_seq(&rest, a);
            let fb = find_seq(&rest, b);
            let next: Option<(usize, usize)> = match (fa, fb) {
                (Some(i), Some(j)) => if j < i {
                    Some((j, b.len()))
                } else {
                    Some((i, a.len()))
                },
                (Some(i), None) => Some((i, a.len())),
                (None, Some(j)) => Some((j, b.len())),
                (None, None) => None,
            };
            proof {
                lemma_find_from(rest@, a@, 0);
                lemma_find_from(rest@, b@, 0);
            }
            match next {
                Some((i, l)) => {
                    assert(next_tag(th, rest@) == Some((i as int, l as int)));
                    assert(rest@.skip(i + l) =~= combined@.skip(cursor + i + l));
                    if i > 0 {
                        let piece = string_from(&rest, 0, i);
                        assert(piece@ == rest@.take(i as int));
                        let ghost before = out@;
                        out.push((th, piece));
                        assert(slices_view(out@) =~= slices_view(before).push((th, rest@.take(i as int))));
                        assert(slices_view(out@) + split(!th, rest@.skip(i + l)).out =~= slices_view(
                            before,
                        ) + (seq![(th, rest@.take(i as int))] + split(!th, rest@.skip(i + l)).out));
                    }
                    cursor = cursor + i + l;
                    th = !th;
                },
                None => {
                    assert(next_tag(th, rest@) is None);
                    let tb = byte_len_of(&rest);
                    let ts: u128 = if tb > MAX_TAG_LEN {
                        tb - MAX_TAG_LEN
                    } else {
                        0
                    };
                    let kt = ceil_char_index(&rest, ts);
                    proof {
                        lemma_ceil_index(rest@, ts as int, 0);
                    }
                    let tail_chars = slice_of(&rest, kt, rest.len());
                    let p = find(&tail_chars, '<');
                    proof {
                        lemma_find_char(tail_chars@, '<');
                    }
                    if p < tail_chars.len() {
                        let lt = kt + p;
                        assert(has_char(tail_chars@, '<'));
                        let ghost before = out@;
                        if lt > 0 {
                            out.push((th, string_from(&rest, 0, lt)));
                            assert(slices_view(out@) =~= slices_view(before) + seq![(th, rest@.take(lt as int))]);
                        } else {
                            assert(slices_view(out@) =~= slices_view(before) + Seq::empty());
                        }
                        let held = string_from(&rest, lt, rest.len());
                        assert(held@ =~= rest@.skip(lt as int));
                        self.pending = held;
                        self.in_think = th;
                        return out;
                    } else {
                        assert(!has_char(tail_chars@, '<'));
                        let ghost before = out@;
                        out.push((th, string_from(&rest, 0, rest.len())));
                        assert(rest@.take(rest.len() as int) =~= rest@);
                        assert(slices_view(out@) =~= slices_view(before) + seq![(th, rest@)]);
                        self.pending = String::new();
                        self.in_think = th;
                        return out;
                    }
                },
            }
        }
        assert(combined@.skip(cursor as int) =~= Seq::<char>::empty());
        assert(slices_view(out@) + Seq::empty() =~= slices_view(out@));
        self.pending = String::new();
        self.in_think = th;
        out
    }

    /// At the stream's end: the held tail, in the current mode, if any.
    pub fn flush(self) -> (r: Option<(bool, String)>)
        ensures
            match r {
                Some((t, s)) => self.held().len() > 0 && t == self.mode() && s@ == self.held(),
                None => self.held().len() == 0,
            },
    {
        if chars_of(self.pending.as_str()).len() == 0 {
            None
        } else {
            Some((self.in_think, self.pending))
        }
    }
}

/// One earlier turn of a chat.
#[derive(Debug, Clone)]
pub struct HistoryTurn {
    pub role: String,
    pub content: String,
}

/// A chat request: the new message and the earlier turns.
#[derive(Debug, Clone)]
pub struct ChatRequest {
    pub message: String,
    pub history: Vec<HistoryTurn>,
}

/// The roles passed on to the model.
pub open spec fn known_role(r: Seq<char>) -> bool {
    r == "user"@ || r == "assistant"@ || r == "system"@
}

/// The turns of `h` with a known role, in order.
pub open spec fn kept_turns(h: Seq<HistoryTurn>) -> Seq<(Seq<char>, Seq<char>)>
    decreases h.len(),
{
    if h.len() == 0 {
        Seq::empty()
    } else if known_role(h.last().role@) {
        kept_turns(h.drop_last()).push((h.last().role@, h.last().content@))
    } else {
        kept_turns(h.drop_last())
    }
}

pub open spec fn pair_views(v: Seq<(String, String)>) -> Seq<(Seq<char>, Seq<char>)> {
    v.map_values(|p: (String, String)| (p.0@, p.1@))
}

/// The earlier turns passed to the model: those with role `user`,
/// `assistant` or `system`, as (role, content), in order; others are dropped.
pub fn history_for_model(history: &Vec<HistoryTurn>) -> (r: Vec<(String, String)>)
    ensures
        pair_views(r@) == kept_turns(history@),
{
    let mut r: Vec<(String, String)> = Vec::new();
    let mut i: usize = 0;
    while i < history.len()
        invariant
            i <= history.len(),
            pair_views(r@) == kept_turns(history@.take(i as int)),
        decreases history.len() - i,
    {
        assert(history@.take(i + 1).drop_last() =~= history@.take(i as int));
        let role = history[i].role.as_str();
        if crate::text::str_eq(role, "user") || crate::text::str_eq(role, "assistant")
            || crate::text::str_eq(role, "system") {
            let ghost before = r@;
            r.push((history[i].role.clone(), history[i].content.clone()));
            assert(pair_views(r@) =~= pair_views(before).push((history@[i as int].role@, history@[i as int].content@)));
        }
        i += 1;
    }
    assert(history@.take(history.len() as int) =~= history@);
    r
}

/// The frame type of a classified slice.
pub open spec fn frame_type_of(is_thinking: bool) -> Seq<char> {
    if is_thinking {
        "thinking_delta"@
    } else {
        "delta"@
    }
}

/// The frames of a pushed chunk's slices: empty slices are skipped, the
/// rest sent as `thinking_delta` or `delta`.
pub open spec fn frames_of(slices: Seq<(bool, Seq<char>)>) -> Seq<(Seq<char>, Seq<char>)>
    decreases slices.len(),
{
    if slices.len() == 0 {
        Seq::empty()
    } else if slices.last().1.len() == 0 {
        frames_of(slices.drop_last())
    } else {
        frames_of(slices.drop_last()).push((frame_type_of(slices.last().0), slices.last().1))
    }
}

pub open spec fn frame_views(v: Seq<(&'static str, String)>) -> Seq<(Seq<char>, Seq<char>)> {
    v.map_values(|p: (&'static str, String)| (p.0@, p.1@))
}

/// The frame type of a classified slice.
pub fn frame_type(is_thinking: bool) -> (t: &'static str)
    ensures
        t@ == frame_type_of(is_thinking),
{
    if is_thinking {
        "thinking_delta"
    } else {
        "delta"
    }
}

/// The frames of a pushed chunk's slices, in order.
pub fn chunk_frames(slices: Vec<(bool, String)>) -> (f: Vec<(&'static str, String)>)
    ensures
        frame_views(f@) == frames_of(slices_view(slices@)),
{
    let mut f: Vec<(&'static str, String)> = Vec::new();
    let mut i: usize = 0;
    while i < slices.len()
        invariant
            i <= slices.len(),
            frame_views(f@) == frames_of(slices_view(slices@.take(i as int))),
        decreases slices.len() - i,
    {
        assert(slices_view(slices@.take(i + 1)).drop_last() =~= slices_view(slices@.take(i as int)));
        let (t, text) = &slices[i];
        if crate::text::chars_of(text.as_str()).len() > 0 {
            let ghost before = f@;
            f.push((frame_type(*t), text.clone()));
            assert(frame_views(f@) =~= frame_views(before).push((frame_type_of(*t), text@)));
        }
        i += 1;
    }
    assert(slices@.take(slices.len() as int) =~= slices@);
    f
}

} // verus!
