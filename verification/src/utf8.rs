//! How many bytes a text takes.

use vstd::prelude::*;
use vstd::utf8::{char_is_scalar, encode_scalar, encode_utf8};

verus! {

/// How many bytes a text takes.
pub open spec fn byte_len(s: Seq<char>) -> int {
    encode_utf8(s).len() as int
}

/// How many bytes a character takes.
pub open spec fn char_len_v(c: char) -> int {
    encode_scalar(c as u32).len() as int
}

/// Whether a character of `s` starts at byte `n` or the text ends there.
pub open spec fn is_boundary(s: Seq<char>, n: int) -> bool {
    exists|k: int| 0 <= k <= s.len() && #[trigger] byte_len(s.take(k)) == n
}

/// A character takes from one to four bytes.
pub proof fn lemma_char_len(c: char)
    ensures
        1 <= char_len_v(c) <= 4,
{
    char_is_scalar(c);
}

/// The bytes of two parts add up.
pub proof fn lemma_byte_len_add(a: Seq<char>, b: Seq<char>)
    ensures
        byte_len(a + b) == byte_len(a) + byte_len(b),
    decreases a.len(),
{
    if a.len() == 0 {
        assert(a + b =~= b);
    } else {
        assert((a + b).drop_first() =~= a.drop_first() + b);
        lemma_byte_len_add(a.drop_first(), b);
    }
}

/// A text of one character takes as many bytes as the character.
pub proof fn lemma_byte_len_one(c: char)
    ensures
        byte_len(seq![c]) == char_len_v(c),
{
    assert(seq![c].drop_first() =~= seq![]);
    assert(encode_utf8(seq![]).len() == 0);
}

/// One more character takes its bytes more.
pub proof fn lemma_byte_len_next(s: Seq<char>, k: int)
    requires
        0 <= k < s.len(),
    ensures
        byte_len(s.take(k + 1)) == byte_len(s.take(k)) + char_len_v(s[k]),
        1 <= char_len_v(s[k]) <= 4,
        byte_len(s.take(k + 1)) <= byte_len(s),
{
    assert(s.take(k + 1) =~= s.take(k) + seq![s[k]]);
    lemma_byte_len_add(s.take(k), seq![s[k]]);
    lemma_byte_len_one(s[k]);
    lemma_char_len(s[k]);
    assert(s =~= s.take(k + 1) + s.skip(k + 1));
    lemma_byte_len_add(s.take(k + 1), s.skip(k + 1));
}

/// A longer part takes more bytes.
pub proof fn lemma_byte_len_grows(s: Seq<char>, j: int, k: int)
    requires
        0 <= j <= k <= s.len(),
    ensures
        byte_len(s.take(j)) + (k - j) <= byte_len(s.take(k)),
    decreases k - j,
{
    if j < k {
        lemma_byte_len_next(s, k - 1);
        lemma_byte_len_grows(s, j, k - 1);
    }
}

/// How many bytes `c` takes.
pub fn char_len(c: char) -> (n: usize)
    ensures
        n == char_len_v(c),
        1 <= n <= 4,
{
    let v: u32 = c as u32;
    proof {
        char_is_scalar(c);
    }
    if v <= 0x7f {
        1
    } else if v <= 0x7ff {
        2
    } else if v <= 0xffff {
        3
    } else {
        4
    }
}

/// How many bytes `s` takes.
pub fn byte_len_of(s: &str) -> (n: usize)
    ensures
        n == byte_len(s@),
{
    let n: usize = s.as_bytes().len();
    n
}

} // verus!
