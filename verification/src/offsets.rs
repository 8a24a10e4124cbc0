//! Byte offsets of UTF-8 text held as characters: where a byte index falls
//! between characters, and the byte length of a text.
use vstd::prelude::*;

use vstd::utf8::{char_is_scalar, encode_scalar, encode_utf8};

verus! {

/// The number of bytes of the UTF-8 encoding of `c`.
pub open spec fn char_width(c: char) -> nat {
    if (c as u32) <= 0x7f {
        1
    } else if (c as u32) <= 0x7ff {
        2
    } else if (c as u32) <= 0xffff {
        3
    } else {
        4
    }
}

/// The byte length of the UTF-8 encoding of `s`.
pub open spec fn byte_count(s: Seq<char>) -> nat {
    encode_utf8(s).len()
}

/// The byte offset at which character `k` of `s` starts.
pub open spec fn byte_offset(s: Seq<char>, k: int) -> nat {
    byte_count(s.take(k))
}

/// Byte `b` of the encoding of `s` starts a character (or is its end).
pub open spec fn on_boundary(s: Seq<char>, b: int) -> bool {
    exists|k: int| 0 <= k <= s.len() && #[trigger] byte_offset(s, k) == b
}

pub proof fn lemma_char_width(c: char)
    ensures
        encode_scalar(c as u32).len() == char_width(c),
{
    char_is_scalar(c);
}

pub proof fn lemma_encode_concat(a: Seq<char>, b: Seq<char>)
    ensures
        encode_utf8(a + b) == encode_utf8(a) + encode_utf8(b),
    decreases a.len(),
{
    if a.len() == 0 {
        assert(a + b =~= b);
    } else {
        assert((a + b).drop_first() =~= a.drop_first() + b);
        lemma_encode_concat(a.drop_first(), b);
        assert(encode_utf8(a + b) =~= encode_scalar(a[0] as u32) + encode_utf8(a.drop_first() + b));
    }
}

/// One more character adds its width.
pub proof fn lemma_offset_step(s: Seq<char>, k: int)
    requires
        0 <= k < s.len(),
    ensures
        byte_offset(s, k + 1) == byte_offset(s, k) + char_width(s[k]),
{
    assert(s.take(k + 1) =~= s.take(k) + seq![s[k]]);
    lemma_encode_concat(s.take(k), seq![s[k]]);
    lemma_char_width(s[k]);
    assert(encode_utf8(seq![s[k]]) =~= encode_scalar(s[k] as u32) + encode_utf8(seq![s[k]].drop_first()));
}

/// Offsets grow strictly with the character index.
pub proof fn lemma_offset_increasing(s: Seq<char>, j: int, k: int)
    requires
        0 <= j < k <= s.len(),
    ensures
        byte_offset(s, j) < byte_offset(s, k),
    decreases k - j,
{
    lemma_offset_step(s, k - 1);
    if j < k - 1 {
        lemma_offset_increasing(s, j, k - 1);
    }
}

/// The offset of the whole text is its byte length.
pub proof fn lemma_offset_full(s: Seq<char>)
    ensures
        byte_offset(s, s.len() as int) == byte_count(s),
{
    assert(s.take(s.len() as int) =~= s);
}

/// The offsets of a suffix: dropping the first `i` characters shifts every
/// offset down by the offset of character `i`.
pub proof fn lemma_offset_skip(s: Seq<char>, i: int, k: int)
    requires
        0 <= i <= s.len(),
        0 <= k <= s.len() - i,
    ensures
        byte_offset(s.skip(i), k) + byte_offset(s, i) == byte_offset(s, i + k),
{
    assert(s.take(i + k) =~= s.take(i) + s.skip(i).take(k));
    lemma_encode_concat(s.take(i), s.skip(i).take(k));
}

/// The width of a character, computed.
pub fn width_of(c: char) -> (w: u8)
    ensures
        w == char_width(c),
{
    let u = c as u32;
    if u <= 0x7f {
        1
    } else if u <= 0x7ff {
        2
    } else if u <= 0xffff {
        3
    } else {
        4
    }
}

/// The byte length of the text.
pub fn byte_len_of(v: &Vec<char>) -> (n: u128)
    ensures
        n == byte_count(v@),
{
    let mut n: u128 = 0;
    let mut k: usize = 0;
    while k < v.len()
        invariant
            k <= v.len(),
            n == byte_offset(v@, k as int),
            n <= 4 * k,
        decreases v.len() - k,
    {
        proof {
            lemma_offset_step(v@, k as int);
        }
        n = n + width_of(v[k]) as u128;
        k += 1;
    }
    proof {
        lemma_offset_full(v@);
    }
    n
}

/// The first character index from `k` on whose character starts at or after
/// byte `b` (the length when none does).
pub open spec fn ceil_index(s: Seq<char>, b: int, k: int) -> int
    decreases s.len() - k,
{
    if k < 0 || k >= s.len() || byte_offset(s, k) >= b {
        k
    } else {
        ceil_index(s, b, k + 1)
    }
}

/// `ceil_index` lies between `k` and the length; the characters before it
/// start before `b`, and it starts at or after `b` when `b` is within the
/// text.
pub proof fn lemma_ceil_index(s: Seq<char>, b: int, k: int)
    requires
        0 <= k <= s.len(),
    ensures
        k <= ceil_index(s, b, k) <= s.len(),
        forall|j: int| k <= j < ceil_index(s, b, k) ==> #[trigger] byte_offset(s, j) < b,
        b <= byte_count(s) ==> byte_offset(s, ceil_index(s, b, k)) >= b,
    decreases s.len() - k,
{
    lemma_offset_full(s);
    if k < s.len() && byte_offset(s, k) < b {
        lemma_ceil_index(s, b, k + 1);
    }
}

/// The first character index whose character starts at or after byte `b`.
pub fn ceil_char_index(v: &Vec<char>, b: u128) -> (r: usize)
    ensures
        r == ceil_index(v@, b as int, 0),
{
    let mut n: u128 = 0;
    let mut k: usize = 0;
    while k < v.len() && n < b
        invariant
            k <= v.len(),
            n == byte_offset(v@, k as int),
            n <= 4 * k,
            ceil_index(v@, b as int, 0) == ceil_index(v@, b as int, k as int),
        decreases v.len() - k,
    {
        proof {
            lemma_offset_step(v@, k as int);
        }
        n = n + width_of(v[k]) as u128;
        k += 1;
    }
    k
}

/// The index of the character that starts at byte `b`, or `None` when `b`
/// falls inside a character or past the end.
pub fn char_index_at_byte(v: &Vec<char>, b: u128) -> (r: Option<usize>)
    ensures
        match r {
            Some(k) => k <= v.len() && byte_offset(v@, k as int) == b,
            None => !on_boundary(v@, b as int),
        },
{
    let mut n: u128 = 0;
    let mut k: usize = 0;
    while k < v.len() && n < b
        invariant
            k <= v.len(),
            n == byte_offset(v@, k as int),
            n <= 4 * k,
            forall|j: int| 0 <= j < k ==> byte_offset(v@, j) < b,
        decreases v.len() - k,
    {
        proof {
            lemma_offset_step(v@, k as int);
        }
        n = n + width_of(v[k]) as u128;
        k += 1;
    }
    if n == b {
        Some(k)
    } else {
        proof {
            assert forall|j: int| 0 <= j <= v@.len() implies #[trigger] byte_offset(v@, j) != b by {
                if j < k {
                } else if j > k {
                    lemma_offset_increasing(v@, k as int, j);
                }
            }
        }
        None
    }
}

} // verus!
