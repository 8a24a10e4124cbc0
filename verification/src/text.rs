//! Character-level helpers shared by the validators and parsers.
//!
//! Text is handled as a sequence of `char`s: a `&str` is turned into a
//! `Vec<char>` once, lines and fields are located by index, and the pieces
//! that a caller keeps are copied back into `String`s.
use vstd::prelude::*;

verus! {

// ── Character classes ────────────────────────────────────────────────────────

/// `char::is_ascii_digit`.
pub open spec fn is_digit(c: char) -> bool {
    '0' <= c <= '9'
}

/// `char::is_ascii_lowercase`.
pub open spec fn is_lower(c: char) -> bool {
    'a' <= c <= 'z'
}

/// `char::is_ascii_uppercase`.
pub open spec fn is_upper(c: char) -> bool {
    'A' <= c <= 'Z'
}

/// `char::is_ascii_alphanumeric`.
pub open spec fn is_alnum(c: char) -> bool {
    is_digit(c) || is_lower(c) || is_upper(c)
}

/// `char::is_ascii_hexdigit`.
pub open spec fn is_hex(c: char) -> bool {
    is_digit(c) || ('a' <= c <= 'f') || ('A' <= c <= 'F')
}

pub fn digit(c: char) -> (b: bool)
    ensures
        b == is_digit(c),
{
    '0' <= c && c <= '9'
}

pub fn alnum(c: char) -> (b: bool)
    ensures
        b == is_alnum(c),
{
    ('0' <= c && c <= '9') || ('a' <= c && c <= 'z') || ('A' <= c && c <= 'Z')
}

pub fn hex(c: char) -> (b: bool)
    ensures
        b == is_hex(c),
{
    ('0' <= c && c <= '9') || ('a' <= c && c <= 'f') || ('A' <= c && c <= 'F')
}

/// The characters of `s`, in order.
pub fn chars_of(s: &str) -> (out: Vec<char>)
    ensures
        out@ == s@,
{
    let mut out: Vec<char> = Vec::new();
    for c in it: s.chars()
        invariant
            out@ == it.seq().take(it.index() as int),
            it.seq() == s@,
    {
        out.push(c);
    }
    out
}


/// Appends one character to `s` (`String::push`).
#[verifier::external_body]
pub(crate) fn push_char(s: &mut String, c: char)
    ensures
        final(s)@ == old(s)@.push(c),
{
    s.push(c);
}

/// A `String` holding `v[lo..hi]`.
pub fn string_from(v: &Vec<char>, lo: usize, hi: usize) -> (s: String)
    requires
        lo <= hi <= v.len(),
    ensures
        s@ == v@.subrange(lo as int, hi as int),
{
    let mut s = String::new();
    let mut i = lo;
    while i < hi
        invariant
            lo <= i <= hi <= v.len(),
            s@ == v@.subrange(lo as int, i as int),
        decreases hi - i,
    {
        push_char(&mut s, v[i]);
        i += 1;
        assert(s@ =~= v@.subrange(lo as int, i as int));
    }
    s
}

/// A `String` holding all of `v`.
pub fn string_of(v: &Vec<char>) -> (s: String)
    ensures
        s@ == v@,
{
    let s = string_from(v, 0, v.len());
    assert(v@.subrange(0, v@.len() as int) =~= v@);
    s
}

/// A fresh vector holding `v[lo..hi]`.
pub fn slice_of(v: &Vec<char>, lo: usize, hi: usize) -> (out: Vec<char>)
    requires
        lo <= hi <= v.len(),
    ensures
        out@ == v@.subrange(lo as int, hi as int),
{
    let mut out: Vec<char> = Vec::new();
    let mut i = lo;
    while i < hi
        invariant
            lo <= i <= hi <= v.len(),
            out@ == v@.subrange(lo as int, i as int),
        decreases hi - i,
    {
        out.push(v[i]);
        i += 1;
        assert(out@ =~= v@.subrange(lo as int, i as int));
    }
    out
}

// ── Lines ────────────────────────────────────────────────────────────────────

/// A line piece without the `'\r'` that preceded its `'\n'`.
pub open spec fn strip_cr(l: Seq<char>) -> Seq<char> {
    if l.len() > 0 && l.last() == '\r' {
        l.drop_last()
    } else {
        l
    }
}

/// The lines of `s[start..]`, where `s[start..i]` holds no `'\n'`.
pub open spec fn lines_from(s: Seq<char>, start: int, i: int) -> Seq<Seq<char>>
    decreases s.len() - i,
{
    if i < 0 || i >= s.len() {
        if 0 <= start < s.len() {
            seq![s.subrange(start, s.len() as int)]
        } else {
            Seq::empty()
        }
    } else if s[i] == '\n' {
        seq![strip_cr(s.subrange(start, i))] + lines_from(s, i + 1, i + 1)
    } else {
        lines_from(s, start, i + 1)
    }
}

/// What `str::lines` yields: the pieces between `'\n'`s, each without a
/// `'\r'` that ends it before its `'\n'`, and no empty piece after a final `'\n'`.
pub open spec fn lines_of(s: Seq<char>) -> Seq<Seq<char>> {
    lines_from(s, 0, 0)
}

/// The lines of `text`, each as its own vector of characters.
pub fn split_lines(text: &Vec<char>) -> (out: Vec<Vec<char>>)
    ensures
        out.len() == lines_of(text@).len(),
        forall|k: int| 0 <= k < out.len() ==> #[trigger] out[k]@ == lines_of(text@)[k],
{
    let n = text.len();
    let mut out: Vec<Vec<char>> = Vec::new();
    let mut start: usize = 0;
    let mut i: usize = 0;
    while i < n
        invariant
            n == text.len(),
            start <= i <= n,
            out.len() + lines_from(text@, start as int, i as int).len() == lines_of(text@).len(),
            forall|k: int| 0 <= k < out.len() ==> #[trigger] out[k]@ == lines_of(text@)[k],
            forall|k: int|
                0 <= k < lines_from(text@, start as int, i as int).len() ==> #[trigger] lines_from(
                    text@,
                    start as int,
                    i as int,
                )[k] == lines_of(text@)[out.len() + k],
        decreases n - i,
    {
        if text[i] == '\n' {
            let end = if i > start && text[i - 1] == '\r' {
                i - 1
            } else {
                i
            };
            let piece = slice_of(text, start, end);
            proof {
                let ghost l = text@.subrange(start as int, i as int);
                assert(piece@ =~= strip_cr(l));
                let ghost rest = lines_from(text@, (i + 1) as int, (i + 1) as int);
                assert(lines_from(text@, start as int, i as int) == seq![strip_cr(l)] + rest);
                assert(lines_from(text@, start as int, i as int)[0] == strip_cr(l));
                assert forall|k: int| 0 <= k < rest.len() implies #[trigger] rest[k]
                    == lines_of(text@)[out.len() + 1 + k] by {
                    assert(lines_from(text@, start as int, i as int)[k + 1] == rest[k]);
                }
            }
            out.push(piece);
            start = i + 1;
        }
        i += 1;
    }
    if start < n {
        let piece = slice_of(text, start, n);
        proof {
            assert(lines_from(text@, start as int, n as int)[0] == piece@);
        }
        out.push(piece);
    }
    out
}


// ── Prefixes and searching ───────────────────────────────────────────────────

/// `s` starts with `p`.
pub open spec fn has_prefix(s: Seq<char>, p: Seq<char>) -> bool {
    p.len() <= s.len() && s.subrange(0, p.len() as int) == p
}

/// `s` with the prefix `p` removed (meaningful where `has_prefix(s, p)`).
pub open spec fn after_prefix(s: Seq<char>, p: Seq<char>) -> Seq<char> {
    s.subrange(p.len() as int, s.len() as int)
}

/// Whether `v` starts with the characters of `p`.
pub fn starts_with(v: &Vec<char>, p: &str) -> (b: bool)
    ensures
        b == has_prefix(v@, p@),
{
    let m = p.unicode_len();
    if m > v.len() {
        return false;
    }
    let mut j: usize = 0;
    while j < m
        invariant
            m == p@.len(),
            m <= v.len(),
            j <= m,
            forall|t: int| 0 <= t < j ==> v@[t] == p@[t],
        decreases m - j,
    {
        if v[j] != p.get_char(j) {
            assert(v@.subrange(0, m as int)[j as int] != p@[j as int]);
            return false;
        }
        j += 1;
    }
    assert(v@.subrange(0, m as int) =~= p@);
    true
}

/// Whether `v` holds exactly the characters of `p`.
pub fn equals(v: &Vec<char>, p: &str) -> (b: bool)
    ensures
        b == (v@ == p@),
{
    if v.len() != p.unicode_len() {
        return false;
    }
    let r = starts_with(v, p);
    assert(v@.subrange(0, v@.len() as int) =~= v@);
    r
}

/// Index of the first `c` in `s`, or `s.len()` when there is none.
pub open spec fn find_char(s: Seq<char>, c: char) -> int
    decreases s.len(),
{
    if s.len() == 0 {
        0
    } else if s[0] == c {
        0
    } else {
        1 + find_char(s.drop_first(), c)
    }
}

pub proof fn lemma_find_char(s: Seq<char>, c: char)
    ensures
        0 <= find_char(s, c) <= s.len(),
        find_char(s, c) < s.len() ==> s[find_char(s, c)] == c,
        forall|j: int| 0 <= j < find_char(s, c) ==> s[j] != c,
    decreases s.len(),
{
    if s.len() > 0 && s[0] != c {
        lemma_find_char(s.drop_first(), c);
        assert forall|j: int| 0 <= j < find_char(s, c) implies s[j] != c by {
            if j > 0 {
                assert(s[j] == s.drop_first()[j - 1]);
            }
        }
    }
}

/// A position `i` with no `c` before it and a `c` at it (or at the end) is
/// where `find_char` lands.
pub proof fn lemma_find_char_at(s: Seq<char>, c: char, i: int)
    requires
        0 <= i <= s.len(),
        forall|j: int| 0 <= j < i ==> s[j] != c,
        i < s.len() ==> s[i] == c,
    ensures
        find_char(s, c) == i,
    decreases s.len(),
{
    if s.len() > 0 && s[0] != c {
        assert forall|j: int| 0 <= j < i - 1 implies s.drop_first()[j] != c by {
            assert(s.drop_first()[j] == s[j + 1]);
        }
        lemma_find_char_at(s.drop_first(), c, i - 1);
    }
}

/// Index of the first `c` in `v` (or `v.len()`).
pub fn find(v: &Vec<char>, c: char) -> (i: usize)
    ensures
        i == find_char(v@, c),
{
    let mut i: usize = 0;
    while i < v.len()
        invariant
            i <= v.len(),
            forall|j: int| 0 <= j < i ==> v@[j] != c,
        decreases v.len() - i,
    {
        if v[i] == c {
            proof {
                lemma_find_char_at(v@, c, i as int);
            }
            return i;
        }
        i += 1;
    }
    proof {
        lemma_find_char_at(v@, c, i as int);
    }
    i
}

/// The piece of `s` before its first `c` (all of `s` when there is none).
pub open spec fn before_char(s: Seq<char>, c: char) -> Seq<char> {
    s.subrange(0, find_char(s, c))
}

/// The piece of `s` after its first `c`, if there is one.
pub open spec fn after_char(s: Seq<char>, c: char) -> Option<Seq<char>> {
    if find_char(s, c) < s.len() {
        Some(s.subrange(find_char(s, c) + 1, s.len() as int))
    } else {
        None
    }
}

/// Whether `s` holds `c`.
pub open spec fn has_char(s: Seq<char>, c: char) -> bool {
    exists|i: int| 0 <= i < s.len() && s[i] == c
}

pub proof fn lemma_has_char(s: Seq<char>, c: char)
    ensures
        has_char(s, c) <==> find_char(s, c) < s.len(),
{
    lemma_find_char(s, c);
    if find_char(s, c) < s.len() {
        assert(s[find_char(s, c)] == c);
    }
}

/// `s[i]` is `a` and `s[i + 1]` is `b`.
pub open spec fn pair_at(s: Seq<char>, i: int, a: char, b: char) -> bool {
    0 <= i && i + 1 < s.len() && s[i] == a && s[i + 1] == b
}

/// Whether `s` holds two consecutive characters `a`, `b`.
pub open spec fn has_pair(s: Seq<char>, a: char, b: char) -> bool {
    exists|i: int| #[trigger] pair_at(s, i, a, b)
}

/// Whether `v` holds `a` immediately followed by `b`.
pub fn contains_pair(v: &Vec<char>, a: char, b: char) -> (r: bool)
    ensures
        r == has_pair(v@, a, b),
{
    let mut i: usize = 0;
    while v.len() > 0 && i < v.len() - 1
        invariant
            i <= v.len(),
            forall|j: int| 0 <= j < i ==> !#[trigger] pair_at(v@, j, a, b),
        decreases v.len() - i,
    {
        if v[i] == a && v[i + 1] == b {
            assert(pair_at(v@, i as int, a, b));
            return true;
        }
        i += 1;
    }
    assert forall|j: int| !#[trigger] pair_at(v@, j, a, b) by {
        if 0 <= j < i {
        }
    }
    false
}

/// Whether `v` holds `c`.
pub fn contains_char(v: &Vec<char>, c: char) -> (r: bool)
    ensures
        r == has_char(v@, c),
{
    let i = find(v, c);
    proof {
        lemma_has_char(v@, c);
    }
    i < v.len()
}


// ── Numbers ──────────────────────────────────────────────────────────────────

/// Value of one decimal digit.
pub open spec fn digit_val(c: char) -> nat {
    (c as int - '0' as int) as nat
}

/// Every character of `s` is a decimal digit.
pub open spec fn all_digits(s: Seq<char>) -> bool {
    forall|i: int| 0 <= i < s.len() ==> is_digit(#[trigger] s[i])
}

/// The number that the decimal digits `s` spell.
pub open spec fn digits_value(s: Seq<char>) -> nat
    decreases s.len(),
{
    if s.len() == 0 {
        0
    } else {
        digits_value(s.drop_last()) * 10 + digit_val(s.last())
    }
}

/// `s` without one leading `'+'`.
pub open spec fn unsigned_body(s: Seq<char>) -> Seq<char> {
    if s.len() > 0 && s[0] == '+' {
        s.drop_first()
    } else {
        s
    }
}

/// What `str::parse::<u64>` accepts: an optional `'+'`, then one or more
/// decimal digits whose value fits in 64 bits.
pub open spec fn parse_u64_spec(s: Seq<char>) -> Option<u64> {
    let d = unsigned_body(s);
    if d.len() > 0 && all_digits(d) && digits_value(d) <= u64::MAX {
        Some(digits_value(d) as u64)
    } else {
        None
    }
}

/// `s` without one leading sign.
pub open spec fn signed_body(s: Seq<char>) -> Seq<char> {
    if s.len() > 0 && (s[0] == '+' || s[0] == '-') {
        s.drop_first()
    } else {
        s
    }
}

/// What `str::parse::<i64>` accepts: an optional sign, then one or more
/// decimal digits whose signed value fits in 64 bits.
pub open spec fn parse_i64_spec(s: Seq<char>) -> Option<i64> {
    let d = signed_body(s);
    let neg = s.len() > 0 && s[0] == '-';
    if d.len() > 0 && all_digits(d) {
        if neg {
            if digits_value(d) <= 0x8000_0000_0000_0000 {
                Some((0 - digits_value(d)) as i64)
            } else {
                None
            }
        } else if digits_value(d) <= i64::MAX {
            Some(digits_value(d) as i64)
        } else {
            None
        }
    } else {
        None
    }
}

proof fn lemma_digits_value_grows(s: Seq<char>, k: int)
    requires
        0 <= k <= s.len(),
        all_digits(s),
    ensures
        digits_value(s.take(k)) <= digits_value(s),
    decreases s.len(),
{
    if k < s.len() {
        let t = s.drop_last();
        assert(all_digits(t)) by {
            assert forall|i: int| 0 <= i < t.len() implies is_digit(#[trigger] t[i]) by {
                assert(t[i] == s[i]);
            }
        }
        lemma_digits_value_grows(t, k);
        assert(t.take(k) =~= s.take(k));
    } else {
        assert(s.take(k) =~= s);
    }
}

/// The value of the digits `v[lo..]` when all of them are digits, there is
/// at least one, and the value fits in 64 bits.
fn digits_at(v: &Vec<char>, lo: usize) -> (r: Option<u64>)
    requires
        lo <= v.len(),
    ensures
        ({
            let d = v@.subrange(lo as int, v@.len() as int);
            r == if d.len() > 0 && all_digits(d) && digits_value(d) <= u64::MAX {
                Some(digits_value(d) as u64)
            } else {
                None::<u64>
            }
        }),
{
    let ghost d = v@.subrange(lo as int, v@.len() as int);
    if lo == v.len() {
        return None;
    }
    let mut i = lo;
    while i < v.len()
        invariant
            lo <= i <= v.len(),
            d == v@.subrange(lo as int, v@.len() as int),
            forall|j: int| lo <= j < i ==> is_digit(#[trigger] v@[j]),
        decreases v.len() - i,
    {
        if !digit(v[i]) {
            assert(d[i - lo] == v@[i as int]);
            return None;
        }
        i += 1;
    }
    assert(all_digits(d)) by {
        assert forall|j: int| 0 <= j < d.len() implies is_digit(#[trigger] d[j]) by {
            assert(d[j] == v@[lo + j]);
        }
    }
    let mut acc: u64 = 0;
    let mut i = lo;
    while i < v.len()
        invariant
            lo <= i <= v.len(),
            d == v@.subrange(lo as int, v@.len() as int),
            all_digits(d),
            acc == digits_value(d.take(i - lo)),
        decreases v.len() - i,
    {
        let c = v[i];
        assert(d[i - lo] == c);
        assert(d.take(i - lo + 1).drop_last() =~= d.take(i - lo));
        assert(is_digit(d[i - lo]));
        let dv = (c as u32 - '0' as u32) as u64;
        if acc > 1844674407370955161 || (acc == 1844674407370955161 && dv > 5) {
            proof {
                lemma_digits_value_grows(d, i - lo + 1);
            }
            return None;
        }
        acc = acc * 10 + dv;
        i += 1;
    }
    assert(d.take(d.len() as int) =~= d);
    Some(acc)
}

/// `str::parse::<u64>` on `v`.
pub fn parse_u64(v: &Vec<char>) -> (r: Option<u64>)
    ensures
        r == parse_u64_spec(v@),
{
    if v.len() > 0 && v[0] == '+' {
        assert(v@.subrange(1, v@.len() as int) =~= v@.drop_first());
        digits_at(v, 1)
    } else {
        assert(v@.subrange(0, v@.len() as int) =~= v@);
        digits_at(v, 0)
    }
}

/// `str::parse::<i64>` on `v`.
pub fn parse_i64(v: &Vec<char>) -> (r: Option<i64>)
    ensures
        r == parse_i64_spec(v@),
{
    let neg = v.len() > 0 && v[0] == '-';
    let lo: usize = if v.len() > 0 && (v[0] == '+' || v[0] == '-') {
        1
    } else {
        0
    };
    assert(v@.subrange(lo as int, v@.len() as int) =~= signed_body(v@));
    match digits_at(v, lo) {
        None => {
            proof {
                let d = signed_body(v@);
                if d.len() > 0 && all_digits(d) {
                    assert(digits_value(d) > u64::MAX);
                }
            }
            None
        },
        Some(m) => {
            if neg {
                if m <= 0x8000_0000_0000_0000 {
                    if m == 0x8000_0000_0000_0000 {
                        Some(i64::MIN)
                    } else {
                        Some(0 - (m as i64))
                    }
                } else {
                    None
                }
            } else if m <= 0x7fff_ffff_ffff_ffff {
                Some(m as i64)
            } else {
                None
            }
        },
    }
}


// ── Whitespace ───────────────────────────────────────────────────────────────

/// `char::is_whitespace`: the characters with the Unicode `White_Space` property.
pub open spec fn is_space(c: char) -> bool {
    ('\t' <= c <= '\r') || c == ' ' || c == '\u{85}' || c == '\u{a0}' || c == '\u{1680}' || (
    '\u{2000}' <= c <= '\u{200a}') || c == '\u{2028}' || c == '\u{2029}' || c == '\u{202f}' || c
        == '\u{205f}' || c == '\u{3000}'
}

pub fn space(c: char) -> (b: bool)
    ensures
        b == is_space(c),
{
    ('\t' <= c && c <= '\r') || c == ' ' || c == '\u{85}' || c == '\u{a0}' || c == '\u{1680}' || (
    '\u{2000}' <= c && c <= '\u{200a}') || c == '\u{2028}' || c == '\u{2029}' || c == '\u{202f}'
        || c == '\u{205f}' || c == '\u{3000}'
}

/// `char::is_ascii_whitespace`.
pub open spec fn is_ascii_space(c: char) -> bool {
    c == ' ' || c == '\t' || c == '\n' || c == '\x0C' || c == '\r'
}

/// `s` without leading whitespace.
pub open spec fn trim_start(s: Seq<char>) -> Seq<char>
    decreases s.len(),
{
    if s.len() > 0 && is_space(s[0]) {
        trim_start(s.drop_first())
    } else {
        s
    }
}

/// `s` without trailing whitespace.
pub open spec fn trim_end(s: Seq<char>) -> Seq<char>
    decreases s.len(),
{
    if s.len() > 0 && is_space(s.last()) {
        trim_end(s.drop_last())
    } else {
        s
    }
}

/// `str::trim`.
pub open spec fn trim(s: Seq<char>) -> Seq<char> {
    trim_end(trim_start(s))
}

/// `v[lo..hi]` is `trim(v)`.
pub fn trim_bounds(v: &Vec<char>) -> (r: (usize, usize))
    ensures
        r.0 <= r.1 <= v.len(),
        v@.subrange(r.0 as int, r.1 as int) == trim(v@),
{
    let n = v.len();
    let mut i: usize = 0;
    assert(v@.subrange(0, n as int) =~= v@);
    while i < n && space(v[i])
        invariant
            n == v.len(),
            i <= n,
            trim_start(v@) == trim_start(v@.subrange(i as int, n as int)),
        decreases n - i,
    {
        assert(v@.subrange(i as int, n as int).drop_first() =~= v@.subrange(i + 1, n as int));
        i += 1;
    }
    assert(trim_start(v@) == v@.subrange(i as int, n as int));
    let mut j: usize = n;
    while j > i && space(v[j - 1])
        invariant
            n == v.len(),
            i <= j <= n,
            trim(v@) == trim_end(v@.subrange(i as int, j as int)),
        decreases j,
    {
        assert(v@.subrange(i as int, j as int).drop_last() =~= v@.subrange(i as int, j - 1));
        j -= 1;
    }
    (i, j)
}

/// The copy of `v` that `str::trim` gives.
pub fn trimmed(v: &Vec<char>) -> (out: Vec<char>)
    ensures
        out@ == trim(v@),
{
    let (lo, hi) = trim_bounds(v);
    slice_of(v, lo, hi)
}

/// The words of `s[start..]` (`s[start..i]` holds no ASCII whitespace).
pub open spec fn words_from(s: Seq<char>, start: int, i: int) -> Seq<Seq<char>>
    decreases s.len() - i,
{
    if i < 0 || i >= s.len() {
        if 0 <= start < s.len() {
            seq![s.subrange(start, s.len() as int)]
        } else {
            Seq::empty()
        }
    } else if is_ascii_space(s[i]) {
        (if start < i {
            seq![s.subrange(start, i)]
        } else {
            Seq::empty()
        }) + words_from(s, i + 1, i + 1)
    } else {
        words_from(s, start, i + 1)
    }
}

/// What `str::split_ascii_whitespace` yields: the non-empty runs of characters
/// between ASCII whitespace.
pub open spec fn words_of(s: Seq<char>) -> Seq<Seq<char>> {
    words_from(s, 0, 0)
}

pub fn split_words(text: &Vec<char>) -> (out: Vec<Vec<char>>)
    ensures
        out.len() == words_of(text@).len(),
        forall|k: int| 0 <= k < out.len() ==> #[trigger] out[k]@ == words_of(text@)[k],
{
    let n = text.len();
    let mut out: Vec<Vec<char>> = Vec::new();
    let mut start: usize = 0;
    let mut i: usize = 0;
    while i < n
        invariant
            n == text.len(),
            start <= i <= n,
            out.len() + words_from(text@, start as int, i as int).len() == words_of(text@).len(),
            forall|k: int| 0 <= k < out.len() ==> #[trigger] out[k]@ == words_of(text@)[k],
            forall|k: int|
                0 <= k < words_from(text@, start as int, i as int).len() ==> #[trigger] words_from(
                    text@,
                    start as int,
                    i as int,
                )[k] == words_of(text@)[out.len() + k],
        decreases n - i,
    {
        let c = text[i];
        if c == ' ' || c == '\t' || c == '\n' || c == '\x0C' || c == '\r' {
            let ghost rest = words_from(text@, (i + 1) as int, (i + 1) as int);
            if start < i {
                let piece = slice_of(text, start, i);
                proof {
                    let ghost here = words_from(text@, start as int, i as int);
                    assert(here == seq![piece@] + rest);
                    assert(here[0] == piece@);
                    assert forall|k: int| 0 <= k < rest.len() implies #[trigger] rest[k]
                        == words_of(text@)[out.len() + 1 + k] by {
                        assert(here[k + 1] == rest[k]);
                    }
                }
                out.push(piece);
            } else {
                proof {
                    let ghost here = words_from(text@, start as int, i as int);
                    assert(here =~= rest);
                }
            }
            start = i + 1;
        }
        i += 1;
    }
    if start < n {
        let piece = slice_of(text, start, n);
        proof {
            assert(words_from(text@, start as int, n as int)[0] == piece@);
        }
        out.push(piece);
    }
    out
}


/// `v` without the prefix `p`, when `v` starts with `p`.
pub fn strip_prefix(v: &Vec<char>, p: &str) -> (r: Option<Vec<char>>)
    ensures
        r is Some <==> has_prefix(v@, p@),
        r is Some ==> r->0@ == after_prefix(v@, p@),
{
    if starts_with(v, p) {
        let m = p.unicode_len();
        Some(slice_of(v, m, v.len()))
    } else {
        None
    }
}


/// `s` without any leading `c`s (`str::trim_start_matches(c)`).
pub open spec fn trim_lead(s: Seq<char>, c: char) -> Seq<char>
    decreases s.len(),
{
    if s.len() > 0 && s[0] == c {
        trim_lead(s.drop_first(), c)
    } else {
        s
    }
}

pub fn trim_leading(v: &Vec<char>, c: char) -> (out: Vec<char>)
    ensures
        out@ == trim_lead(v@, c),
{
    let n = v.len();
    let mut i: usize = 0;
    assert(v@.subrange(0, n as int) =~= v@);
    while i < n && v[i] == c
        invariant
            n == v.len(),
            i <= n,
            trim_lead(v@, c) == trim_lead(v@.subrange(i as int, n as int), c),
        decreases n - i,
    {
        assert(v@.subrange(i as int, n as int).drop_first() =~= v@.subrange(i + 1, n as int));
        i += 1;
    }
    slice_of(v, i, n)
}

/// `s` split at its first `c`: the piece before it, and the rest after it if
/// there is one (`str::split_once`, and the first two pieces of `splitn`).
pub fn split_at_char(v: &Vec<char>, c: char) -> (r: (Vec<char>, Option<Vec<char>>))
    ensures
        r.0@ == before_char(v@, c),
        r.1 is Some <==> after_char(v@, c) is Some,
        r.1 is Some ==> r.1->0@ == after_char(v@, c)->0,
{
    let i = find(v, c);
    proof {
        lemma_find_char(v@, c);
    }
    let head = slice_of(v, 0, i);
    if i < v.len() {
        (head, Some(slice_of(v, i + 1, v.len())))
    } else {
        (head, None)
    }
}


/// Whether `a` and `b` hold the same characters.
pub fn same_chars(a: &Vec<char>, b: &Vec<char>) -> (r: bool)
    ensures
        r == (a@ == b@),
{
    if a.len() != b.len() {
        return false;
    }
    let mut i: usize = 0;
    while i < a.len()
        invariant
            a.len() == b.len(),
            i <= a.len(),
            forall|j: int| 0 <= j < i ==> a@[j] == b@[j],
        decreases a.len() - i,
    {
        if a[i] != b[i] {
            return false;
        }
        i += 1;
    }
    assert(a@ =~= b@);
    true
}


/// Whether two strings hold the same characters.
pub fn str_eq(a: &str, b: &str) -> (r: bool)
    ensures
        r == (a@ == b@),
{
    equals(&chars_of(a), b)
}


// ── Ordering ─────────────────────────────────────────────────────────────────

/// Lexicographic order on character sequences (the order of `str`'s `Ord`:
/// UTF-8 bytes compare in the order of the characters they encode).
pub open spec fn lex_le(a: Seq<char>, b: Seq<char>) -> bool
    decreases a.len(),
{
    if a.len() == 0 {
        true
    } else if b.len() == 0 {
        false
    } else if a[0] != b[0] {
        a[0] < b[0]
    } else {
        lex_le(a.drop_first(), b.drop_first())
    }
}

pub proof fn lemma_lex_total(a: Seq<char>, b: Seq<char>)
    ensures
        lex_le(a, b) || lex_le(b, a),
    decreases a.len(),
{
    if a.len() > 0 && b.len() > 0 && a[0] == b[0] {
        lemma_lex_total(a.drop_first(), b.drop_first());
    }
}

pub proof fn lemma_lex_trans(a: Seq<char>, b: Seq<char>, c: Seq<char>)
    requires
        lex_le(a, b),
        lex_le(b, c),
    ensures
        lex_le(a, c),
    decreases a.len(),
{
    if a.len() > 0 && b.len() > 0 && c.len() > 0 && a[0] == b[0] && b[0] == c[0] {
        lemma_lex_trans(a.drop_first(), b.drop_first(), c.drop_first());
    }
}

pub proof fn lemma_lex_antisym(a: Seq<char>, b: Seq<char>)
    requires
        lex_le(a, b),
        lex_le(b, a),
    ensures
        a == b,
    decreases a.len(),
{
    if a.len() > 0 && b.len() > 0 {
        lemma_lex_antisym(a.drop_first(), b.drop_first());
        assert(a =~= seq![a[0]] + a.drop_first());
        assert(b =~= seq![b[0]] + b.drop_first());
    }
}

/// `a <= b` in lexicographic order.
pub fn lex_le_exec(a: &Vec<char>, b: &Vec<char>) -> (r: bool)
    ensures
        r == lex_le(a@, b@),
{
    let mut i: usize = 0;
    assert(a@.subrange(0, a@.len() as int) =~= a@);
    assert(b@.subrange(0, b@.len() as int) =~= b@);
    while i < a.len() && i < b.len() && a[i] == b[i]
        invariant
            i <= a.len(),
            i <= b.len(),
            lex_le(a@, b@) == lex_le(a@.subrange(i as int, a@.len() as int), b@.subrange(i as int, b@.len() as int)),
        decreases a.len() - i,
    {
        assert(a@.subrange(i as int, a@.len() as int).drop_first() =~= a@.subrange(i + 1, a@.len() as int));
        assert(b@.subrange(i as int, b@.len() as int).drop_first() =~= b@.subrange(i + 1, b@.len() as int));
        i += 1;
    }
    assert(i < a.len() ==> a@.subrange(i as int, a@.len() as int)[0] == a@[i as int]);
    assert(i < b.len() ==> b@.subrange(i as int, b@.len() as int)[0] == b@[i as int]);
    if i == a.len() {
        true
    } else if i == b.len() {
        false
    } else {
        a[i] < b[i]
    }
}


// ── Decimal rendering ────────────────────────────────────────────────────────

/// The decimal digit character for `d < 10`.
pub open spec fn digit_char(d: nat) -> char {
    if d == 0 {
        '0'
    } else if d == 1 {
        '1'
    } else if d == 2 {
        '2'
    } else if d == 3 {
        '3'
    } else if d == 4 {
        '4'
    } else if d == 5 {
        '5'
    } else if d == 6 {
        '6'
    } else if d == 7 {
        '7'
    } else if d == 8 {
        '8'
    } else {
        '9'
    }
}

fn digit_to_char(d: u64) -> (c: char)
    requires
        d < 10,
    ensures
        c == digit_char(d as nat),
{
    if d == 0 {
        '0'
    } else if d == 1 {
        '1'
    } else if d == 2 {
        '2'
    } else if d == 3 {
        '3'
    } else if d == 4 {
        '4'
    } else if d == 5 {
        '5'
    } else if d == 6 {
        '6'
    } else if d == 7 {
        '7'
    } else if d == 8 {
        '8'
    } else {
        '9'
    }
}

/// The decimal representation of `n` (`format!("{n}")`).
pub open spec fn decimal(n: nat) -> Seq<char>
    decreases n,
{
    if n < 10 {
        seq![digit_char(n)]
    } else {
        decimal(n / 10).push(digit_char(n % 10))
    }
}

/// A number written in decimal is one or more digits that spell it.
pub proof fn lemma_decimal_digits(n: nat)
    ensures
        decimal(n).len() > 0,
        all_digits(decimal(n)),
        digits_value(decimal(n)) == n,
    decreases n,
{
    if n >= 10 {
        lemma_decimal_digits(n / 10);
        let d = decimal(n);
        assert(d.drop_last() == decimal(n / 10));
        assert forall|i: int| 0 <= i < d.len() implies is_digit(#[trigger] d[i]) by {
            if i < d.len() - 1 {
                assert(d[i] == decimal(n / 10)[i]);
            }
        }
        lemma_digit_char_val((n % 10) as nat);
        assert(d.last() == digit_char((n % 10) as nat));
        assert(digits_value(d) == digits_value(d.drop_last()) * 10 + digit_val(d.last()));
        assert(n == (n / 10) * 10 + n % 10);
    } else {
        lemma_digit_char_val(n);
        let d = decimal(n);
        assert(d.drop_last() =~= Seq::<char>::empty());
        assert(digits_value(d.drop_last()) == 0);
        assert(digits_value(d) == digits_value(d.drop_last()) * 10 + digit_val(d.last()));
    }
}

/// The digit character of a number under ten is a digit of that value.
proof fn lemma_digit_char_val(d: nat)
    requires
        d < 10,
    ensures
        is_digit(digit_char(d)),
        digit_val(digit_char(d)) == d,
{
}

/// `n` written in decimal.
pub fn decimal_string(n: u64) -> (s: String)
    ensures
        s@ == decimal(n as nat),
{
    let mut digits: Vec<char> = Vec::new();
    let mut m = n;
    while m >= 10
        invariant
            decimal(n as nat) == decimal(m as nat) + digits@,
        decreases m,
    {
        let c = digit_to_char(m % 10);
        assert(decimal(m as nat) == decimal((m / 10) as nat).push(c));
        let ghost prev = digits@;
        digits.insert(0, c);
        assert(decimal(m as nat) + prev =~= decimal((m / 10) as nat) + digits@) by {
            assert(digits@ =~= seq![c] + prev);
        }
        m = m / 10;
    }
    let c = digit_to_char(m);
    let ghost before = digits@;
    digits.insert(0, c);
    assert(digits@ =~= seq![c] + before);
    string_of(&digits)
}


/// The copy of `v` that `str::trim_start` gives.
pub fn trimmed_start(v: &Vec<char>) -> (out: Vec<char>)
    ensures
        out@ == trim_start(v@),
{
    let n = v.len();
    let mut i: usize = 0;
    assert(v@.subrange(0, n as int) =~= v@);
    while i < n && space(v[i])
        invariant
            n == v.len(),
            i <= n,
            trim_start(v@) == trim_start(v@.subrange(i as int, n as int)),
        decreases n - i,
    {
        assert(v@.subrange(i as int, n as int).drop_first() =~= v@.subrange(i + 1, n as int));
        i += 1;
    }
    slice_of(v, i, n)
}

/// `s` without any trailing `c`s.
pub open spec fn trim_trail(s: Seq<char>, c: char) -> Seq<char>
    decreases s.len(),
{
    if s.len() > 0 && s.last() == c {
        trim_trail(s.drop_last(), c)
    } else {
        s
    }
}

/// `s` without leading or trailing `c`s (`str::trim_matches(c)`).
pub open spec fn trim_char(s: Seq<char>, c: char) -> Seq<char> {
    trim_trail(trim_lead(s, c), c)
}

pub fn trim_matches(v: &Vec<char>, c: char) -> (out: Vec<char>)
    ensures
        out@ == trim_char(v@, c),
{
    let lead = trim_leading(v, c);
    let n = lead.len();
    let mut j: usize = n;
    assert(lead@.subrange(0, n as int) =~= lead@);
    while j > 0 && lead[j - 1] == c
        invariant
            n == lead.len(),
            j <= n,
            trim_char(v@, c) == trim_trail(lead@.subrange(0, j as int), c),
        decreases j,
    {
        assert(lead@.subrange(0, j as int).drop_last() =~= lead@.subrange(0, j - 1));
        j -= 1;
    }
    slice_of(&lead, 0, j)
}


/// The characters of an optional string.
pub open spec fn opt_chars(o: Option<String>) -> Option<Seq<char>> {
    match o {
        Some(s) => Some(s@),
        None => None,
    }
}

} // verus!
