//! Character classes and UTF-8 widths.
use vstd::prelude::*;

verus! {

/// Horizontal whitespace: tab, vertical tab, form feed, space, no-break space, BOM.
pub open spec fn spec_is_whitespace(c: char) -> bool {
    c == '\t' || c == '\u{b}' || c == '\u{c}' || c == ' ' || c == '\u{a0}' || c == '\u{feff}'
}

/// Line terminators: LF, CR, line separator, paragraph separator.
pub open spec fn spec_is_linebreak(c: char) -> bool {
    c == '\n' || c == '\r' || c == '\u{2028}' || c == '\u{2029}'
}

pub open spec fn spec_is_digit(c: char) -> bool {
    '0' <= c && c <= '9'
}

/// ASCII letters, `$`, `_`, and every non-ASCII character that is not whitespace
/// or a line terminator.
pub open spec fn spec_is_id_start(c: char) -> bool {
    ('a' <= c && c <= 'z') || ('A' <= c && c <= 'Z') || c == '$' || c == '_' || (c as u32 > 0x7f
        && !spec_is_whitespace(c) && !spec_is_linebreak(c))
}

pub open spec fn spec_is_id_continue(c: char) -> bool {
    spec_is_id_start(c) || spec_is_digit(c)
}

/// Number of bytes that `c` takes in UTF-8.
pub open spec fn utf8_len(c: char) -> nat {
    if (c as u32) < 0x80 {
        1
    } else if (c as u32) < 0x800 {
        2
    } else if (c as u32) < 0x10000 {
        3
    } else {
        4
    }
}

/// Byte offset, in UTF-8, of the character at index `n` of `s`.
pub open spec fn byte_offset(s: Seq<char>, n: int) -> nat
    decreases n,
{
    if n <= 0 || n > s.len() {
        0
    } else {
        byte_offset(s, n - 1) + utf8_len(s[n - 1])
    }
}

pub proof fn lemma_byte_offset_bound(s: Seq<char>, n: int)
    requires
        0 <= n <= s.len(),
    ensures
        byte_offset(s, n) <= 4 * n,
    decreases n,
{
    if n > 0 {
        lemma_byte_offset_bound(s, n - 1);
    }
}

pub proof fn lemma_byte_offset_monotonic(s: Seq<char>, m: int, n: int)
    requires
        0 <= m <= n <= s.len(),
    ensures
        byte_offset(s, m) + (n - m) <= byte_offset(s, n),
    decreases n - m,
{
    if m < n {
        lemma_byte_offset_monotonic(s, m, n - 1);
    }
}

pub fn is_whitespace(c: char) -> (r: bool)
    ensures
        r == spec_is_whitespace(c),
{
    c == '\t' || c == '\u{b}' || c == '\u{c}' || c == ' ' || c == '\u{a0}' || c == '\u{feff}'
}

pub fn is_linebreak(c: char) -> (r: bool)
    ensures
        r == spec_is_linebreak(c),
{
    c == '\n' || c == '\r' || c == '\u{2028}' || c == '\u{2029}'
}

pub fn is_digit(c: char) -> (r: bool)
    ensures
        r == spec_is_digit(c),
{
    '0' <= c && c <= '9'
}

pub fn is_id_start(c: char) -> (r: bool)
    ensures
        r == spec_is_id_start(c),
{
    ('a' <= c && c <= 'z') || ('A' <= c && c <= 'Z') || c == '$' || c == '_' || (c as u32 > 0x7f
        && !is_whitespace(c) && !is_linebreak(c))
}

pub fn is_id_continue(c: char) -> (r: bool)
    ensures
        r == spec_is_id_continue(c),
{
    is_id_start(c) || is_digit(c)
}

pub fn char_utf8_len(c: char) -> (r: usize)
    ensures
        r == utf8_len(c),
{
    if (c as u32) < 0x80 {
        1
    } else if (c as u32) < 0x800 {
        2
    } else if (c as u32) < 0x10000 {
        3
    } else {
        4
    }
}

} // verus!
