//! Display widths of characters and strings in terminal columns, as the
//! `unicode-width` crate computes them, and UTF-8 byte lengths.

use vstd::prelude::*;
use unicode_width::{UnicodeWidthChar, UnicodeWidthStr};

verus! {

/// Columns that `UnicodeWidthStr::width` gives for a string.
pub uninterp spec fn str_width(s: Seq<char>) -> usize;

/// What `UnicodeWidthChar::width` gives for a character: its columns, or
/// nothing for a control character.
pub uninterp spec fn char_width(c: char) -> Option<usize>;

/// `UnicodeWidthStr::width`: the displayed width of `s` in columns.
#[verifier::external_body]
pub fn display_width(s: &str) -> (w: usize)
    ensures
        w == str_width(s@),
{
    UnicodeWidthStr::width(s)
}

/// `UnicodeWidthChar::width`: the columns of one character, or `None` for a
/// control character. As the crate's source shows, printable ASCII is one
/// column wide, the C0 and C1 control codes have no width, and no character
/// is wider than three columns.
#[verifier::external_body]
pub fn char_display_width(c: char) -> (w: Option<usize>)
    ensures
        w == char_width(c),
        w matches Some(n) ==> n <= 3,
        (' ' <= c && c < '\u{7f}') ==> w == Some(1usize),
        (c < ' ' || ('\u{7f}' <= c && c < '\u{a0}')) ==> w is None,
{
    UnicodeWidthChar::width(c)
}

/// Number of bytes of the UTF-8 encoding of `c`.
pub open spec fn utf8_len(c: char) -> nat {
    if (c as u32) < 0x80 {
        1
    } else if (c as u32) < 0x800 {
        2
    } else if (c as u32) < 0x10000 {
        3
    } else {
        4
    }
}

/// Number of bytes of the UTF-8 encoding of `c` (`char::len_utf8`).
pub fn char_utf8_len(c: char) -> (n: usize)
    ensures
        n == utf8_len(c),
{
    let v = c as u32;
    if v < 0x80 {
        1
    } else if v < 0x800 {
        2
    } else if v < 0x10000 {
        3
    } else {
        4
    }
}

/// Byte offset of the `k`-th character of `s` in its UTF-8 encoding.
pub open spec fn byte_offset(s: Seq<char>, k: int) -> nat
    decreases k,
{
    if k <= 0 || s.len() == 0 {
        0
    } else if k > s.len() {
        byte_offset(s, s.len() as int)
    } else {
        byte_offset(s, k - 1) + utf8_len(s[k - 1])
    }
}

/// The byte range `s..e` of `text` starts and ends on character
/// boundaries: at characters `a` and `b`.
pub open spec fn char_span(text: Seq<char>, s: usize, e: usize, a: int, b: int) -> bool {
    0 <= a <= b <= text.len() && byte_offset(text, a) == s && byte_offset(text, b) == e
}

/// Byte offsets grow strictly with the character position.
pub proof fn lemma_byte_offset_strictly_increasing(text: Seq<char>, a: int, b: int)
    requires
        0 <= a < b <= text.len(),
    ensures
        byte_offset(text, a) < byte_offset(text, b),
    decreases b - a,
{
    if a + 1 < b {
        lemma_byte_offset_strictly_increasing(text, a, b - 1);
    }
}

/// Distinct character positions have distinct byte offsets.
pub proof fn lemma_byte_offset_injective(text: Seq<char>, a: int, b: int)
    requires
        0 <= a <= text.len(),
        0 <= b <= text.len(),
        byte_offset(text, a) == byte_offset(text, b),
    ensures
        a == b,
{
    if a < b {
        lemma_byte_offset_strictly_increasing(text, a, b);
    } else if b < a {
        lemma_byte_offset_strictly_increasing(text, b, a);
    }
}

/// The character position whose byte offset in `text` is `offset`.
pub open spec fn char_at_byte(text: Seq<char>, offset: usize) -> int {
    choose|a: int| 0 <= a <= text.len() && byte_offset(text, a) == offset
}

/// The position of the character of `text` that starts at byte `offset`,
/// when `offset` is a character boundary.
pub fn char_index_at_byte(text: &Vec<char>, offset: usize) -> (k: usize)
    requires
        exists|a: int| 0 <= a <= text@.len() && byte_offset(text@, a) == offset,
    ensures
        k == char_at_byte(text@, offset),
        k <= text@.len(),
        byte_offset(text@, k as int) == offset,
{
    let ghost target = choose|a: int| 0 <= a <= text@.len() && byte_offset(text@, a) == offset;
    let mut k: usize = 0;
    let mut at: usize = 0;
    while at < offset
        invariant
            0 <= target <= text.len(),
            byte_offset(text@, target) == offset,
            k <= target,
            at == byte_offset(text@, k as int),
        decreases target - k,
    {
        proof {
            if k == target {
                assert(false);
            }
            if k + 1 < target {
                lemma_byte_offset_strictly_increasing(text@, k + 1, target);
            }
        }
        at = at + char_utf8_len(text[k]);
        k = k + 1;
    }
    proof {
        if k < target {
            lemma_byte_offset_strictly_increasing(text@, k as int, target);
        }
        let c = char_at_byte(text@, offset);
        lemma_byte_offset_injective(text@, c, k as int);
    }
    k
}

} // verus!
