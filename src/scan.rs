//! Scanners for identifiers, numbers, strings, comments and regular expressions.
//!
//! Each scanner is a spec function that gives where the lexeme ends, and an
//! executable function proved to return that position.
use vstd::prelude::*;
use crate::chars::{
    is_digit, is_id_continue, is_id_start, is_linebreak, spec_is_digit, spec_is_id_continue,
    spec_is_id_start, spec_is_linebreak,
};

verus! {

/// End of the maximal run of identifier characters that starts at `i`.
pub open spec fn ident_end(s: Seq<char>, i: int) -> int
    decreases s.len() - i,
{
    if 0 <= i < s.len() && spec_is_id_continue(s[i]) {
        ident_end(s, i + 1)
    } else {
        i
    }
}

/// End of the maximal run of decimal digits that starts at `i`.
pub open spec fn digits_end(s: Seq<char>, i: int) -> int
    decreases s.len() - i,
{
    if 0 <= i < s.len() && spec_is_digit(s[i]) {
        digits_end(s, i + 1)
    } else {
        i
    }
}

/// End of the line that holds `i`: the first line terminator at or after `i`,
/// or the end of input.
pub open spec fn line_end(s: Seq<char>, i: int) -> int
    decreases s.len() - i,
{
    if 0 <= i < s.len() && !spec_is_linebreak(s[i]) {
        line_end(s, i + 1)
    } else {
        i
    }
}

/// End of the integer and fraction parts of a number starting at `start`.
pub open spec fn mantissa_end(s: Seq<char>, start: int) -> int {
    if 0 <= start < s.len() && s[start] == '.' {
        digits_end(s, start + 1)
    } else {
        let a = digits_end(s, start);
        if a < s.len() && s[a] == '.' {
            digits_end(s, a + 1)
        } else {
            a
        }
    }
}

/// A number starting at `start`: where it ends, and whether it is malformed (an
/// exponent without digits, or an identifier character right after it).
pub open spec fn number_scan(s: Seq<char>, start: int) -> (int, bool) {
    let b = mantissa_end(s, start);
    if 0 <= b < s.len() && (s[b] == 'e' || s[b] == 'E') {
        let c = if b + 1 < s.len() && (s[b + 1] == '+' || s[b + 1] == '-') {
            b + 2
        } else {
            b + 1
        };
        let d = digits_end(s, c);
        (d, d == c || (d < s.len() && spec_is_id_start(s[d])))
    } else {
        (b, 0 <= b < s.len() && spec_is_id_start(s[b]))
    }
}

/// Where a quoted literal closed by `q` ends, its body starting at `i`; `None`
/// when a line terminator or the end of input comes first.
pub open spec fn quoted_end(s: Seq<char>, i: int, q: char) -> Option<int>
    decreases s.len() - i,
{
    if i < 0 || i >= s.len() {
        None
    } else if s[i] == q {
        Some(i + 1)
    } else if spec_is_linebreak(s[i]) {
        None
    } else if s[i] == '\\' {
        if i + 1 >= s.len() {
            None
        } else {
            quoted_end(s, i + 2, q)
        }
    } else {
        quoted_end(s, i + 1, q)
    }
}

/// Where a block comment ends, its body starting at `i`: just after the first
/// `*/`; `None` when there is none.
pub open spec fn block_comment_end(s: Seq<char>, i: int) -> Option<int>
    decreases s.len() - i,
{
    if i < 0 || i + 1 >= s.len() {
        None
    } else if s[i] == '*' && s[i + 1] == '/' {
        Some(i + 2)
    } else {
        block_comment_end(s, i + 1)
    }
}

/// Where the body of a regular expression ends, just after its closing `/`,
/// the body starting at `i`; `in_class` tells whether `i` is inside `[...]`.
/// `None` when a line terminator or the end of input comes first.
pub open spec fn regex_body_end(s: Seq<char>, i: int, in_class: bool) -> Option<int>
    decreases s.len() - i,
{
    if i < 0 || i >= s.len() || spec_is_linebreak(s[i]) {
        None
    } else if s[i] == '\\' {
        if i + 1 >= s.len() || spec_is_linebreak(s[i + 1]) {
            None
        } else {
            regex_body_end(s, i + 2, in_class)
        }
    } else if s[i] == '[' {
        regex_body_end(s, i + 1, true)
    } else if s[i] == ']' {
        regex_body_end(s, i + 1, false)
    } else if s[i] == '/' && !in_class {
        Some(i + 1)
    } else {
        regex_body_end(s, i + 1, in_class)
    }
}

pub open spec fn spec_is_regex_flag(c: char) -> bool {
    c == 'd' || c == 'g' || c == 'i' || c == 'm' || c == 's' || c == 'u' || c == 'v' || c == 'y'
}

/// Every flag is known and none is repeated.
pub open spec fn flags_valid(f: Seq<char>) -> bool {
    &&& forall|k: int| 0 <= k < f.len() ==> spec_is_regex_flag(#[trigger] f[k])
    &&& forall|k: int, l: int| 0 <= k < l < f.len() ==> #[trigger] f[k] != #[trigger] f[l]
}

pub fn scan_ident_end(s: &Vec<char>, i: usize) -> (r: usize)
    requires
        i <= s.len(),
    ensures
        r == ident_end(s@, i as int),
        i <= r <= s.len(),
{
    let mut j = i;
    while j < s.len() && is_id_continue(s[j])
        invariant
            i <= j <= s.len(),
            ident_end(s@, j as int) == ident_end(s@, i as int),
        decreases s.len() - j,
    {
        j += 1;
    }
    j
}

pub fn scan_digits_end(s: &Vec<char>, i: usize) -> (r: usize)
    requires
        i <= s.len(),
    ensures
        r == digits_end(s@, i as int),
        i <= r <= s.len(),
{
    let mut j = i;
    while j < s.len() && is_digit(s[j])
        invariant
            i <= j <= s.len(),
            digits_end(s@, j as int) == digits_end(s@, i as int),
        decreases s.len() - j,
    {
        j += 1;
    }
    j
}

pub fn scan_line_end(s: &Vec<char>, i: usize) -> (r: usize)
    requires
        i <= s.len(),
    ensures
        r == line_end(s@, i as int),
        i <= r <= s.len(),
{
    let mut j = i;
    while j < s.len() && !is_linebreak(s[j])
        invariant
            i <= j <= s.len(),
            line_end(s@, j as int) == line_end(s@, i as int),
        decreases s.len() - j,
    {
        j += 1;
    }
    j
}

/// Scans a number that starts at `start`.
pub fn scan_number(s: &Vec<char>, start: usize) -> (r: (usize, bool))
    requires
        start < s.len(),
    ensures
        (r.0 as int, r.1) == number_scan(s@, start as int),
        start <= r.0 <= s.len(),
{
    let b = if s[start] == '.' {
        scan_digits_end(s, start + 1)
    } else {
        let a = scan_digits_end(s, start);
        if a < s.len() && s[a] == '.' {
            scan_digits_end(s, a + 1)
        } else {
            a
        }
    };
    if b < s.len() && (s[b] == 'e' || s[b] == 'E') {
        let c = if b + 1 < s.len() && (s[b + 1] == '+' || s[b + 1] == '-') {
            b + 2
        } else {
            b + 1
        };
        let d = scan_digits_end(s, c);
        (d, d == c || (d < s.len() && is_id_start(s[d])))
    } else {
        (b, b < s.len() && is_id_start(s[b]))
    }
}

/// Scans the body of a literal quoted by `q`, starting at `i`.
pub fn scan_quoted_end(s: &Vec<char>, i: usize, q: char) -> (r: Option<usize>)
    requires
        i <= s.len(),
    ensures
        match quoted_end(s@, i as int, q) {
            Some(e) => i < e <= s.len() && r == Some(e as usize),
            None => r is None,
        },
{
    let mut j = i;
    while j < s.len()
        invariant
            i <= j <= s.len(),
            quoted_end(s@, j as int, q) == quoted_end(s@, i as int, q),
        decreases s.len() - j,
    {
        let c = s[j];
        if c == q {
            return Some(j + 1);
        } else if is_linebreak(c) {
            return None;
        } else if c == '\\' {
            if j + 1 >= s.len() {
                return None;
            }
            j += 2;
        } else {
            j += 1;
        }
    }
    None
}

/// Scans the body of a block comment, starting at `i`.
pub fn scan_block_comment_end(s: &Vec<char>, i: usize) -> (r: Option<usize>)
    requires
        i <= s.len(),
    ensures
        match block_comment_end(s@, i as int) {
            Some(e) => i < e <= s.len() && r == Some(e as usize),
            None => r is None,
        },
{
    let mut j = i;
    while j < s.len() && j + 1 < s.len()
        invariant
            i <= j <= s.len(),
            block_comment_end(s@, j as int) == block_comment_end(s@, i as int),
        decreases s.len() - j,
    {
        if s[j] == '*' && s[j + 1] == '/' {
            return Some(j + 2);
        }
        j += 1;
    }
    None
}

/// Scans the body of a regular expression, starting at `i` outside any class.
pub fn scan_regex_body_end(s: &Vec<char>, i: usize) -> (r: Option<usize>)
    requires
        i <= s.len(),
    ensures
        match regex_body_end(s@, i as int, false) {
            Some(e) => i < e <= s.len() && r == Some(e as usize),
            None => r is None,
        },
{
    let mut j = i;
    let mut in_class = false;
    while j < s.len()
        invariant
            i <= j <= s.len(),
            regex_body_end(s@, j as int, in_class) == regex_body_end(s@, i as int, false),
        decreases s.len() - j,
    {
        let c = s[j];
        if is_linebreak(c) {
            return None;
        } else if c == '\\' {
            if j + 1 >= s.len() || is_linebreak(s[j + 1]) {
                return None;
            }
            j += 2;
        } else if c == '[' {
            in_class = true;
            j += 1;
        } else if c == ']' {
            in_class = false;
            j += 1;
        } else if c == '/' && !in_class {
            return Some(j + 1);
        } else {
            j += 1;
        }
    }
    None
}

pub fn is_regex_flag(c: char) -> (r: bool)
    ensures
        r == spec_is_regex_flag(c),
{
    c == 'd' || c == 'g' || c == 'i' || c == 'm' || c == 's' || c == 'u' || c == 'v' || c == 'y'
}

/// Checks the flags `s[start..end]` of a regular expression.
pub fn check_flags(s: &Vec<char>, start: usize, end: usize) -> (r: bool)
    requires
        start <= end <= s.len(),
    ensures
        r == flags_valid(s@.subrange(start as int, end as int)),
{
    let ghost f = s@.subrange(start as int, end as int);
    let mut k = start;
    while k < end
        invariant
            start <= k <= end <= s.len(),
            f == s@.subrange(start as int, end as int),
            forall|a: int| 0 <= a < k - start ==> spec_is_regex_flag(#[trigger] f[a]),
            forall|a: int, b: int| 0 <= a < b < k - start ==> #[trigger] f[a] != #[trigger] f[b],
        decreases end - k,
    {
        if !is_regex_flag(s[k]) {
            assert(!spec_is_regex_flag(f[k - start]));
            return false;
        }
        let mut l = start;
        while l < k
            invariant
                start <= l <= k < end <= s.len(),
                f == s@.subrange(start as int, end as int),
                forall|a: int| start <= a < l ==> s@[a] != s@[k as int],
            decreases k - l,
        {
            if s[l] == s[k] {
                assert(f[l - start] == f[k - start]);
                return false;
            }
            l += 1;
        }
        assert forall|a: int, b: int| 0 <= a < b < k + 1 - start implies #[trigger] f[a]
            != #[trigger] f[b] by {
            if b == k - start {
                assert(f[a] == s@[a + start]);
            }
        }
        k += 1;
    }
    true
}

pub proof fn lemma_ident_end_bound(s: Seq<char>, i: int)
    requires
        0 <= i <= s.len(),
    ensures
        i <= ident_end(s, i) <= s.len(),
    decreases s.len() - i,
{
    if i < s.len() && spec_is_id_continue(s[i]) {
        lemma_ident_end_bound(s, i + 1);
    }
}

pub proof fn lemma_digits_end_bound(s: Seq<char>, i: int)
    requires
        0 <= i <= s.len(),
    ensures
        i <= digits_end(s, i) <= s.len(),
        i < s.len() && spec_is_digit(s[i]) ==> i < digits_end(s, i),
    decreases s.len() - i,
{
    if i < s.len() && spec_is_digit(s[i]) {
        lemma_digits_end_bound(s, i + 1);
    }
}

pub proof fn lemma_line_end_bound(s: Seq<char>, i: int)
    requires
        0 <= i <= s.len(),
    ensures
        i <= line_end(s, i) <= s.len(),
    decreases s.len() - i,
{
    if i < s.len() && !spec_is_linebreak(s[i]) {
        lemma_line_end_bound(s, i + 1);
    }
}

/// A number that starts with a digit, or with `.` and a digit, is not empty.
pub proof fn lemma_number_bound(s: Seq<char>, pos: int)
    requires
        0 <= pos < s.len(),
        spec_is_digit(s[pos]) || (s[pos] == '.' && pos + 1 < s.len() && spec_is_digit(s[pos + 1])),
    ensures
        pos < number_scan(s, pos).0 <= s.len(),
{
    lemma_digits_end_bound(s, pos);
    lemma_digits_end_bound(s, pos + 1);
    let a = digits_end(s, pos);
    if a < s.len() {
        lemma_digits_end_bound(s, a + 1);
    }
    let b = mantissa_end(s, pos);
    if 0 <= b < s.len() && (s[b] == 'e' || s[b] == 'E') {
        if b + 1 < s.len() && (s[b + 1] == '+' || s[b + 1] == '-') {
            lemma_digits_end_bound(s, b + 2);
        } else {
            lemma_digits_end_bound(s, b + 1);
        }
    }
}

pub proof fn lemma_quoted_end_bound(s: Seq<char>, i: int, q: char)
    requires
        0 <= i,
    ensures
        quoted_end(s, i, q) matches Some(e) ==> i < e <= s.len(),
    decreases s.len() - i,
{
    if 0 <= i < s.len() && s[i] != q && !spec_is_linebreak(s[i]) {
        if s[i] == '\\' {
            if i + 1 < s.len() {
                lemma_quoted_end_bound(s, i + 2, q);
            }
        } else {
            lemma_quoted_end_bound(s, i + 1, q);
        }
    }
}

pub proof fn lemma_block_comment_end_bound(s: Seq<char>, i: int)
    requires
        0 <= i,
    ensures
        block_comment_end(s, i) matches Some(e) ==> i < e <= s.len(),
    decreases s.len() - i,
{
    if i + 1 < s.len() && !(s[i] == '*' && s[i + 1] == '/') {
        lemma_block_comment_end_bound(s, i + 1);
    }
}

pub proof fn lemma_regex_body_end_bound(s: Seq<char>, i: int, in_class: bool)
    requires
        0 <= i,
    ensures
        regex_body_end(s, i, in_class) matches Some(e) ==> i < e <= s.len(),
    decreases s.len() - i,
{
    if 0 <= i < s.len() && !spec_is_linebreak(s[i]) {
        if s[i] == '\\' {
            if i + 1 < s.len() && !spec_is_linebreak(s[i + 1]) {
                lemma_regex_body_end_bound(s, i + 2, in_class);
            }
        } else if s[i] == '[' {
            lemma_regex_body_end_bound(s, i + 1, true);
        } else if s[i] == ']' {
            lemma_regex_body_end_bound(s, i + 1, false);
        } else if !(s[i] == '/' && !in_class) {
            lemma_regex_body_end_bound(s, i + 1, in_class);
        }
    }
}

} // verus!
