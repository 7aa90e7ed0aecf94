//! The operator table and longest-match resolution of punctuation.
use vstd::prelude::*;
use crate::token::{keyword_at, keyword_entry, AssignToken, BinToken, TokenType, KEYWORD_COUNT};

verus! {

/// Number of entries in the operator table.
pub const OPERATOR_COUNT: usize = 42;

/// The operators and punctuators, longest first: a form of four characters comes
/// before every form of three, and so on down to the single characters.
pub open spec fn operator_entry(i: int) -> (Seq<char>, TokenType) {
    if i == 0 {
        (seq!['>', '>', '>', '='], TokenType::AssignOp(AssignToken::UnsignedRightBitshiftAssign))
    } else if i == 1 {
        (seq!['>', '>', '>'], TokenType::BinOp(BinToken::UnsignedRightBitshift))
    } else if i == 2 {
        (seq!['=', '=', '='], TokenType::BinOp(BinToken::StrictEquality))
    } else if i == 3 {
        (seq!['!', '=', '='], TokenType::BinOp(BinToken::StrictInequality))
    } else if i == 4 {
        (seq!['<', '<', '='], TokenType::AssignOp(AssignToken::LeftBitshiftAssign))
    } else if i == 5 {
        (seq!['>', '>', '='], TokenType::AssignOp(AssignToken::RightBitshiftAssign))
    } else if i == 6 {
        (seq!['*', '*', '='], TokenType::AssignOp(AssignToken::ExponentAssign))
    } else if i == 7 {
        (seq!['<', '<'], TokenType::BinOp(BinToken::LeftBitshift))
    } else if i == 8 {
        (seq!['>', '>'], TokenType::BinOp(BinToken::RightBitshift))
    } else if i == 9 {
        (seq!['<', '='], TokenType::BinOp(BinToken::LessThanOrEqual))
    } else if i == 10 {
        (seq!['>', '='], TokenType::BinOp(BinToken::GreaterThanOrEqual))
    } else if i == 11 {
        (seq!['=', '='], TokenType::BinOp(BinToken::Equality))
    } else if i == 12 {
        (seq!['!', '='], TokenType::BinOp(BinToken::Inequality))
    } else if i == 13 {
        (seq!['+', '+'], TokenType::Increment)
    } else if i == 14 {
        (seq!['-', '-'], TokenType::Decrement)
    } else if i == 15 {
        (seq!['+', '='], TokenType::AssignOp(AssignToken::AddAssign))
    } else if i == 16 {
        (seq!['-', '='], TokenType::AssignOp(AssignToken::SubtractAssign))
    } else if i == 17 {
        (seq!['*', '='], TokenType::AssignOp(AssignToken::MultiplyAssign))
    } else if i == 18 {
        (seq!['/', '='], TokenType::AssignOp(AssignToken::DivideAssign))
    } else if i == 19 {
        (seq!['%', '='], TokenType::AssignOp(AssignToken::ModuloAssign))
    } else if i == 20 {
        (seq!['&', '='], TokenType::AssignOp(AssignToken::BitwiseAndAssign))
    } else if i == 21 {
        (seq!['|', '='], TokenType::AssignOp(AssignToken::BitwiseOrAssign))
    } else if i == 22 {
        (seq!['^', '='], TokenType::AssignOp(AssignToken::BitwiseXorAssign))
    } else if i == 23 {
        (seq!['&', '&'], TokenType::BinOp(BinToken::LogicalAnd))
    } else if i == 24 {
        (seq!['|', '|'], TokenType::BinOp(BinToken::LogicalOr))
    } else if i == 25 {
        (seq!['*', '*'], TokenType::BinOp(BinToken::Exponent))
    } else if i == 26 {
        (seq!['<'], TokenType::BinOp(BinToken::LessThan))
    } else if i == 27 {
        (seq!['>'], TokenType::BinOp(BinToken::GreaterThan))
    } else if i == 28 {
        (seq!['='], TokenType::BinOp(BinToken::Assign))
    } else if i == 29 {
        (seq!['+'], TokenType::BinOp(BinToken::Add))
    } else if i == 30 {
        (seq!['-'], TokenType::BinOp(BinToken::Subtract))
    } else if i == 31 {
        (seq!['*'], TokenType::BinOp(BinToken::Multiply))
    } else if i == 32 {
        (seq!['/'], TokenType::BinOp(BinToken::Divide))
    } else if i == 33 {
        (seq!['%'], TokenType::BinOp(BinToken::Modulo))
    } else if i == 34 {
        (seq!['&'], TokenType::BinOp(BinToken::BitwiseAnd))
    } else if i == 35 {
        (seq!['|'], TokenType::BinOp(BinToken::BitwiseOr))
    } else if i == 36 {
        (seq!['^'], TokenType::BinOp(BinToken::BitwiseXor))
    } else if i == 37 {
        (seq!['!'], TokenType::BinOp(BinToken::LogicalNot))
    } else if i == 38 {
        (seq!['~'], TokenType::BinOp(BinToken::BitwiseNot))
    } else if i == 39 {
        (seq!['.'], TokenType::Dot)
    } else if i == 40 {
        (seq!['?'], TokenType::QuestionMark)
    } else if i == 41 {
        (seq![':'], TokenType::Colon)
    } else {
        (seq![], TokenType::Invalid)
    }
}

/// The text and kind of the operator at index `i` of the table.
pub fn operator_at(i: usize) -> (r: (Vec<char>, TokenType))
    requires
        i < OPERATOR_COUNT,
    ensures
        (r.0@, r.1) == operator_entry(i as int),
{
    if i == 0 {
        (vec!['>', '>', '>', '='], TokenType::AssignOp(AssignToken::UnsignedRightBitshiftAssign))
    } else if i == 1 {
        (vec!['>', '>', '>'], TokenType::BinOp(BinToken::UnsignedRightBitshift))
    } else if i == 2 {
        (vec!['=', '=', '='], TokenType::BinOp(BinToken::StrictEquality))
    } else if i == 3 {
        (vec!['!', '=', '='], TokenType::BinOp(BinToken::StrictInequality))
    } else if i == 4 {
        (vec!['<', '<', '='], TokenType::AssignOp(AssignToken::LeftBitshiftAssign))
    } else if i == 5 {
        (vec!['>', '>', '='], TokenType::AssignOp(AssignToken::RightBitshiftAssign))
    } else if i == 6 {
        (vec!['*', '*', '='], TokenType::AssignOp(AssignToken::ExponentAssign))
    } else if i == 7 {
        (vec!['<', '<'], TokenType::BinOp(BinToken::LeftBitshift))
    } else if i == 8 {
        (vec!['>', '>'], TokenType::BinOp(BinToken::RightBitshift))
    } else if i == 9 {
        (vec!['<', '='], TokenType::BinOp(BinToken::LessThanOrEqual))
    } else if i == 10 {
        (vec!['>', '='], TokenType::BinOp(BinToken::GreaterThanOrEqual))
    } else if i == 11 {
        (vec!['=', '='], TokenType::BinOp(BinToken::Equality))
    } else if i == 12 {
        (vec!['!', '='], TokenType::BinOp(BinToken::Inequality))
    } else if i == 13 {
        (vec!['+', '+'], TokenType::Increment)
    } else if i == 14 {
        (vec!['-', '-'], TokenType::Decrement)
    } else if i == 15 {
        (vec!['+', '='], TokenType::AssignOp(AssignToken::AddAssign))
    } else if i == 16 {
        (vec!['-', '='], TokenType::AssignOp(AssignToken::SubtractAssign))
    } else if i == 17 {
        (vec!['*', '='], TokenType::AssignOp(AssignToken::MultiplyAssign))
    } else if i == 18 {
        (vec!['/', '='], TokenType::AssignOp(AssignToken::DivideAssign))
    } else if i == 19 {
        (vec!['%', '='], TokenType::AssignOp(AssignToken::ModuloAssign))
    } else if i == 20 {
        (vec!['&', '='], TokenType::AssignOp(AssignToken::BitwiseAndAssign))
    } else if i == 21 {
        (vec!['|', '='], TokenType::AssignOp(AssignToken::BitwiseOrAssign))
    } else if i == 22 {
        (vec!['^', '='], TokenType::AssignOp(AssignToken::BitwiseXorAssign))
    } else if i == 23 {
        (vec!['&', '&'], TokenType::BinOp(BinToken::LogicalAnd))
    } else if i == 24 {
        (vec!['|', '|'], TokenType::BinOp(BinToken::LogicalOr))
    } else if i == 25 {
        (vec!['*', '*'], TokenType::BinOp(BinToken::Exponent))
    } else if i == 26 {
        (vec!['<'], TokenType::BinOp(BinToken::LessThan))
    } else if i == 27 {
        (vec!['>'], TokenType::BinOp(BinToken::GreaterThan))
    } else if i == 28 {
        (vec!['='], TokenType::BinOp(BinToken::Assign))
    } else if i == 29 {
        (vec!['+'], TokenType::BinOp(BinToken::Add))
    } else if i == 30 {
        (vec!['-'], TokenType::BinOp(BinToken::Subtract))
    } else if i == 31 {
        (vec!['*'], TokenType::BinOp(BinToken::Multiply))
    } else if i == 32 {
        (vec!['/'], TokenType::BinOp(BinToken::Divide))
    } else if i == 33 {
        (vec!['%'], TokenType::BinOp(BinToken::Modulo))
    } else if i == 34 {
        (vec!['&'], TokenType::BinOp(BinToken::BitwiseAnd))
    } else if i == 35 {
        (vec!['|'], TokenType::BinOp(BinToken::BitwiseOr))
    } else if i == 36 {
        (vec!['^'], TokenType::BinOp(BinToken::BitwiseXor))
    } else if i == 37 {
        (vec!['!'], TokenType::BinOp(BinToken::LogicalNot))
    } else if i == 38 {
        (vec!['~'], TokenType::BinOp(BinToken::BitwiseNot))
    } else if i == 39 {
        (vec!['.'], TokenType::Dot)
    } else if i == 40 {
        (vec!['?'], TokenType::QuestionMark)
    } else if i == 41 {
        (vec![':'], TokenType::Colon)
    } else {
        (vec![], TokenType::Invalid)
    }
}

/// `t` stands in `s` at position `pos`.
pub open spec fn matches_at(s: Seq<char>, pos: int, t: Seq<char>) -> bool {
    0 <= pos && pos + t.len() <= s.len() && s.subrange(pos, pos + t.len()) == t
}

/// Index of the first operator of the table, from index `i` on, that stands at `pos`.
pub open spec fn first_operator(s: Seq<char>, pos: int, i: int) -> Option<int>
    decreases OPERATOR_COUNT - i,
{
    if i < 0 || i >= OPERATOR_COUNT {
        None
    } else if matches_at(s, pos, operator_entry(i).0) {
        Some(i)
    } else {
        first_operator(s, pos, i + 1)
    }
}

/// The operator that the longest match gives at `pos`: its kind and length.
pub open spec fn operator_at_pos(s: Seq<char>, pos: int) -> Option<(TokenType, int)> {
    match first_operator(s, pos, 0) {
        Some(i) => Some((operator_entry(i).1, operator_entry(i).0.len() as int)),
        None => None,
    }
}

/// Index of the first reserved word of the table, from index `i` on, equal to `w`.
pub open spec fn first_keyword(w: Seq<char>, i: int) -> Option<int>
    decreases KEYWORD_COUNT - i,
{
    if i < 0 || i >= KEYWORD_COUNT {
        None
    } else if keyword_entry(i).0 == w {
        Some(i)
    } else {
        first_keyword(w, i + 1)
    }
}

/// The kind of an identifier-shaped lexeme `w`: its keyword, or `Identifier`.
pub open spec fn word_kind(w: Seq<char>) -> TokenType {
    match first_keyword(w, 0) {
        Some(i) => keyword_entry(i).1,
        None => TokenType::Identifier,
    }
}

/// Whether `t` stands in `s` at `pos`.
pub fn text_at(s: &Vec<char>, pos: usize, t: &Vec<char>) -> (r: bool)
    requires
        pos <= s.len(),
    ensures
        r == matches_at(s@, pos as int, t@),
{
    if t.len() > s.len() - pos {
        return false;
    }
    let mut k: usize = 0;
    while k < t.len()
        invariant
            k <= t.len(),
            pos + t.len() <= s.len(),
            forall|a: int| 0 <= a < k ==> s@[pos + a] == t@[a],
        decreases t.len() - k,
    {
        if s[pos + k] != t[k] {
            assert(s@.subrange(pos as int, pos + t.len())[k as int] != t@[k as int]);
            return false;
        }
        k += 1;
    }
    assert(s@.subrange(pos as int, pos + t.len()) =~= t@);
    true
}

/// The longest operator that starts at `pos`, with its length in characters.
pub fn match_operator(s: &Vec<char>, pos: usize) -> (r: Option<(TokenType, usize)>)
    requires
        pos <= s.len(),
    ensures
        r == (match operator_at_pos(s@, pos as int) {
            Some((k, n)) => Some((k, n as usize)),
            None => None,
        }),
        r matches Some((k, n)) ==> pos + n <= s.len(),
{
    let mut i: usize = 0;
    while i < OPERATOR_COUNT
        invariant
            i <= OPERATOR_COUNT,
            pos <= s.len(),
            first_operator(s@, pos as int, i as int) == first_operator(s@, pos as int, 0),
        decreases OPERATOR_COUNT - i,
    {
        let (t, k) = operator_at(i);
        if text_at(s, pos, &t) {
            return Some((k, t.len()));
        }
        i += 1;
    }
    None
}

/// The kind of the identifier-shaped lexeme `s[start..end]`.
pub fn classify_word(s: &Vec<char>, start: usize, end: usize) -> (r: TokenType)
    requires
        start <= end <= s.len(),
    ensures
        r == word_kind(s@.subrange(start as int, end as int)),
{
    let ghost w = s@.subrange(start as int, end as int);
    let mut i: usize = 0;
    while i < KEYWORD_COUNT
        invariant
            i <= KEYWORD_COUNT,
            start <= end <= s.len(),
            w == s@.subrange(start as int, end as int),
            first_keyword(w, i as int) == first_keyword(w, 0),
        decreases KEYWORD_COUNT - i,
    {
        let (t, k) = keyword_at(i);
        if t.len() == end - start && text_at(s, start, &t) {
            assert(t@ == w);
            return k;
        }
        assert(keyword_entry(i as int).0 != w);
        i += 1;
    }
    TokenType::Identifier
}

/// The table lists its operators from the longest down, from index `i` on.
pub open spec fn longest_first_from(i: int) -> bool
    decreases OPERATOR_COUNT - i,
{
    if i < 0 || i + 1 >= OPERATOR_COUNT {
        true
    } else {
        operator_entry(i).0.len() >= operator_entry(i + 1).0.len() && longest_first_from(i + 1)
    }
}

proof fn lemma_longest_first_from(i: int, j: int)
    requires
        0 <= i <= j < OPERATOR_COUNT,
        longest_first_from(i),
    ensures
        operator_entry(i).0.len() >= operator_entry(j).0.len(),
    decreases j - i,
{
    if i < j {
        lemma_longest_first_from(i + 1, j);
    }
}

proof fn lemma_first_operator(s: Seq<char>, pos: int, i: int, j: int)
    requires
        0 <= i,
        first_operator(s, pos, i) == Some(j),
    ensures
        i <= j < OPERATOR_COUNT,
        matches_at(s, pos, operator_entry(j).0),
        forall|k: int| i <= k < j ==> !matches_at(s, pos, #[trigger] operator_entry(k).0),
    decreases OPERATOR_COUNT - i,
{
    if !matches_at(s, pos, operator_entry(i).0) {
        lemma_first_operator(s, pos, i + 1, j);
    }
}

/// Maximal munch: the operator chosen at a position is at least as long as
/// every operator of the table that stands there, and what follows it is
/// scanned afresh.
pub proof fn lemma_operator_longest_match(s: Seq<char>, pos: int, j: int)
    requires
        0 <= j < OPERATOR_COUNT,
        matches_at(s, pos, operator_entry(j).0),
    ensures
        operator_at_pos(s, pos) matches Some((k, n)) && n >= operator_entry(j).0.len()
            && matches_at(s, pos, s.subrange(pos, pos + n)),
{
    reveal_with_fuel(longest_first_from, 43);
    assert(longest_first_from(0));
    lemma_first_operator_some(s, pos, 0, j);
    let i = first_operator(s, pos, 0).unwrap();
    lemma_first_operator(s, pos, 0, i);
    if i <= j {
        lemma_longest_first_from(i, j);
    }
}

proof fn lemma_first_operator_some(s: Seq<char>, pos: int, i: int, j: int)
    requires
        0 <= i <= j < OPERATOR_COUNT,
        matches_at(s, pos, operator_entry(j).0),
    ensures
        first_operator(s, pos, i) is Some,
    decreases j - i,
{
    if i < j && !matches_at(s, pos, operator_entry(i).0) {
        lemma_first_operator_some(s, pos, i + 1, j);
    }
}

/// Every operator that the longest match picks has at least one character.
pub proof fn lemma_operator_nonempty(s: Seq<char>, pos: int)
    ensures
        operator_at_pos(s, pos) matches Some((k, n)) ==> n > 0 && pos + n <= s.len(),
{
    if let Some(i) = first_operator(s, pos, 0) {
        reveal_with_fuel(longest_first_from, 43);
        assert(longest_first_from(0));
        lemma_first_operator(s, pos, 0, i);
        lemma_longest_first_from(i, OPERATOR_COUNT - 1);
    }
}

} // verus!
