//! The token model: kinds, spans, errors and stream items.
use vstd::prelude::*;

verus! {

/// Binary and unary operators.
#[derive(Clone, Copy, Debug, PartialEq, Eq, Structural)]
pub enum BinToken {
    Add,
    Subtract,
    Multiply,
    Divide,
    Modulo,
    Exponent,
    Assign,
    Equality,
    StrictEquality,
    Inequality,
    StrictInequality,
    LessThan,
    LessThanOrEqual,
    GreaterThan,
    GreaterThanOrEqual,
    LeftBitshift,
    RightBitshift,
    UnsignedRightBitshift,
    BitwiseAnd,
    BitwiseOr,
    BitwiseXor,
    LogicalAnd,
    LogicalOr,
    LogicalNot,
    BitwiseNot,
}

/// Compound assignment operators.
#[derive(Clone, Copy, Debug, PartialEq, Eq, Structural)]
pub enum AssignToken {
    AddAssign,
    SubtractAssign,
    MultiplyAssign,
    DivideAssign,
    ModuloAssign,
    ExponentAssign,
    LeftBitshiftAssign,
    RightBitshiftAssign,
    UnsignedRightBitshiftAssign,
    BitwiseAndAssign,
    BitwiseOrAssign,
    BitwiseXorAssign,
}

/// The kind of a token.
#[derive(Clone, Copy, Debug, PartialEq, Eq, Structural)]
pub enum TokenType {
    ParenOpen,
    ParenClose,
    BraceOpen,
    BraceClose,
    BracketOpen,
    BracketClose,
    Semicolon,
    Comma,
    Dot,
    QuestionMark,
    Colon,
    Whitespace,
    Linebreak,
    Identifier,
    LiteralNumber,
    LiteralString,
    LiteralTemplate,
    LiteralRegEx,
    InlineComment,
    MultilineComment,
    BinOp(BinToken),
    AssignOp(AssignToken),
    Increment,
    Decrement,
    /// A character that starts no token of the language.
    Invalid,
    Break,
    Case,
    Catch,
    Class,
    Const,
    Continue,
    Debugger,
    Default,
    Delete,
    Do,
    Else,
    Export,
    Extends,
    False,
    Finally,
    For,
    Function,
    If,
    Import,
    In,
    Instanceof,
    Let,
    New,
    Null,
    Return,
    Super,
    Switch,
    This,
    Throw,
    True,
    Try,
    Typeof,
    Var,
    Void,
    While,
    With,
    Yield,
}

/// Whitespace, line breaks and comments: tokens that carry no grammar.
pub open spec fn spec_is_trivia(t: TokenType) -> bool {
    t == TokenType::Whitespace || t == TokenType::Linebreak || t == TokenType::InlineComment
        || t == TokenType::MultilineComment
}

/// Kinds of token after which a `/` divides: the token can end an expression.
pub open spec fn spec_can_end_expression(t: TokenType) -> bool {
    match t {
        TokenType::Identifier | TokenType::LiteralNumber | TokenType::LiteralString
        | TokenType::LiteralTemplate | TokenType::LiteralRegEx | TokenType::ParenClose
        | TokenType::BracketClose | TokenType::BraceClose | TokenType::Increment
        | TokenType::Decrement | TokenType::This | TokenType::Super | TokenType::Null
        | TokenType::True | TokenType::False => true,
        _ => false,
    }
}

impl TokenType {
    pub fn is_trivia(&self) -> (r: bool)
        ensures
            r == spec_is_trivia(*self),
    {
        match self {
            TokenType::Whitespace | TokenType::Linebreak | TokenType::InlineComment
            | TokenType::MultilineComment => true,
            _ => false,
        }
    }

    pub fn can_end_expression(&self) -> (r: bool)
        ensures
            r == spec_can_end_expression(*self),
    {
        match self {
            TokenType::Identifier | TokenType::LiteralNumber | TokenType::LiteralString
            | TokenType::LiteralTemplate | TokenType::LiteralRegEx | TokenType::ParenClose
            | TokenType::BracketClose | TokenType::BraceClose | TokenType::Increment
            | TokenType::Decrement | TokenType::This | TokenType::Super | TokenType::Null
            | TokenType::True | TokenType::False => true,
            _ => false,
        }
    }
}

/// Number of reserved words.
pub const KEYWORD_COUNT: usize = 37;

/// The reserved words, each with the kind it is tagged as.
pub open spec fn keyword_entry(i: int) -> (Seq<char>, TokenType) {
    if i == 0 {
        (seq!['b', 'r', 'e', 'a', 'k'], TokenType::Break)
    } else if i == 1 {
        (seq!['c', 'a', 's', 'e'], TokenType::Case)
    } else if i == 2 {
        (seq!['c', 'a', 't', 'c', 'h'], TokenType::Catch)
    } else if i == 3 {
        (seq!['c', 'l', 'a', 's', 's'], TokenType::Class)
    } else if i == 4 {
        (seq!['c', 'o', 'n', 's', 't'], TokenType::Const)
    } else if i == 5 {
        (seq!['c', 'o', 'n', 't', 'i', 'n', 'u', 'e'], TokenType::Continue)
    } else if i == 6 {
        (seq!['d', 'e', 'b', 'u', 'g', 'g', 'e', 'r'], TokenType::Debugger)
    } else if i == 7 {
        (seq!['d', 'e', 'f', 'a', 'u', 'l', 't'], TokenType::Default)
    } else if i == 8 {
        (seq!['d', 'e', 'l', 'e', 't', 'e'], TokenType::Delete)
    } else if i == 9 {
        (seq!['d', 'o'], TokenType::Do)
    } else if i == 10 {
        (seq!['e', 'l', 's', 'e'], TokenType::Else)
    } else if i == 11 {
        (seq!['e', 'x', 'p', 'o', 'r', 't'], TokenType::Export)
    } else if i == 12 {
        (seq!['e', 'x', 't', 'e', 'n', 'd', 's'], TokenType::Extends)
    } else if i == 13 {
        (seq!['f', 'a', 'l', 's', 'e'], TokenType::False)
    } else if i == 14 {
        (seq!['f', 'i', 'n', 'a', 'l', 'l', 'y'], TokenType::Finally)
    } else if i == 15 {
        (seq!['f', 'o', 'r'], TokenType::For)
    } else if i == 16 {
        (seq!['f', 'u', 'n', 'c', 't', 'i', 'o', 'n'], TokenType::Function)
    } else if i == 17 {
        (seq!['i', 'f'], TokenType::If)
    } else if i == 18 {
        (seq!['i', 'm', 'p', 'o', 'r', 't'], TokenType::Import)
    } else if i == 19 {
        (seq!['i', 'n'], TokenType::In)
    } else if i == 20 {
        (seq!['i', 'n', 's', 't', 'a', 'n', 'c', 'e', 'o', 'f'], TokenType::Instanceof)
    } else if i == 21 {
        (seq!['l', 'e', 't'], TokenType::Let)
    } else if i == 22 {
        (seq!['n', 'e', 'w'], TokenType::New)
    } else if i == 23 {
        (seq!['n', 'u', 'l', 'l'], TokenType::Null)
    } else if i == 24 {
        (seq!['r', 'e', 't', 'u', 'r', 'n'], TokenType::Return)
    } else if i == 25 {
        (seq!['s', 'u', 'p', 'e', 'r'], TokenType::Super)
    } else if i == 26 {
        (seq!['s', 'w', 'i', 't', 'c', 'h'], TokenType::Switch)
    } else if i == 27 {
        (seq!['t', 'h', 'i', 's'], TokenType::This)
    } else if i == 28 {
        (seq!['t', 'h', 'r', 'o', 'w'], TokenType::Throw)
    } else if i == 29 {
        (seq!['t', 'r', 'u', 'e'], TokenType::True)
    } else if i == 30 {
        (seq!['t', 'r', 'y'], TokenType::Try)
    } else if i == 31 {
        (seq!['t', 'y', 'p', 'e', 'o', 'f'], TokenType::Typeof)
    } else if i == 32 {
        (seq!['v', 'a', 'r'], TokenType::Var)
    } else if i == 33 {
        (seq!['v', 'o', 'i', 'd'], TokenType::Void)
    } else if i == 34 {
        (seq!['w', 'h', 'i', 'l', 'e'], TokenType::While)
    } else if i == 35 {
        (seq!['w', 'i', 't', 'h'], TokenType::With)
    } else if i == 36 {
        (seq!['y', 'i', 'e', 'l', 'd'], TokenType::Yield)
    } else {
        (seq![], TokenType::Identifier)
    }
}

/// The text and kind of the reserved word at index `i` of the table.
pub fn keyword_at(i: usize) -> (r: (Vec<char>, TokenType))
    requires
        i < KEYWORD_COUNT,
    ensures
        (r.0@, r.1) == keyword_entry(i as int),
{
    if i == 0 {
        (vec!['b', 'r', 'e', 'a', 'k'], TokenType::Break)
    } else if i == 1 {
        (vec!['c', 'a', 's', 'e'], TokenType::Case)
    } else if i == 2 {
        (vec!['c', 'a', 't', 'c', 'h'], TokenType::Catch)
    } else if i == 3 {
        (vec!['c', 'l', 'a', 's', 's'], TokenType::Class)
    } else if i == 4 {
        (vec!['c', 'o', 'n', 's', 't'], TokenType::Const)
    } else if i == 5 {
        (vec!['c', 'o', 'n', 't', 'i', 'n', 'u', 'e'], TokenType::Continue)
    } else if i == 6 {
        (vec!['d', 'e', 'b', 'u', 'g', 'g', 'e', 'r'], TokenType::Debugger)
    } else if i == 7 {
        (vec!['d', 'e', 'f', 'a', 'u', 'l', 't'], TokenType::Default)
    } else if i == 8 {
        (vec!['d', 'e', 'l', 'e', 't', 'e'], TokenType::Delete)
    } else if i == 9 {
        (vec!['d', 'o'], TokenType::Do)
    } else if i == 10 {
        (vec!['e', 'l', 's', 'e'], TokenType::Else)
    } else if i == 11 {
        (vec!['e', 'x', 'p', 'o', 'r', 't'], TokenType::Export)
    } else if i == 12 {
        (vec!['e', 'x', 't', 'e', 'n', 'd', 's'], TokenType::Extends)
    } else if i == 13 {
        (vec!['f', 'a', 'l', 's', 'e'], TokenType::False)
    } else if i == 14 {
        (vec!['f', 'i', 'n', 'a', 'l', 'l', 'y'], TokenType::Finally)
    } else if i == 15 {
        (vec!['f', 'o', 'r'], TokenType::For)
    } else if i == 16 {
        (vec!['f', 'u', 'n', 'c', 't', 'i', 'o', 'n'], TokenType::Function)
    } else if i == 17 {
        (vec!['i', 'f'], TokenType::If)
    } else if i == 18 {
        (vec!['i', 'm', 'p', 'o', 'r', 't'], TokenType::Import)
    } else if i == 19 {
        (vec!['i', 'n'], TokenType::In)
    } else if i == 20 {
        (vec!['i', 'n', 's', 't', 'a', 'n', 'c', 'e', 'o', 'f'], TokenType::Instanceof)
    } else if i == 21 {
        (vec!['l', 'e', 't'], TokenType::Let)
    } else if i == 22 {
        (vec!['n', 'e', 'w'], TokenType::New)
    } else if i == 23 {
        (vec!['n', 'u', 'l', 'l'], TokenType::Null)
    } else if i == 24 {
        (vec!['r', 'e', 't', 'u', 'r', 'n'], TokenType::Return)
    } else if i == 25 {
        (vec!['s', 'u', 'p', 'e', 'r'], TokenType::Super)
    } else if i == 26 {
        (vec!['s', 'w', 'i', 't', 'c', 'h'], TokenType::Switch)
    } else if i == 27 {
        (vec!['t', 'h', 'i', 's'], TokenType::This)
    } else if i == 28 {
        (vec!['t', 'h', 'r', 'o', 'w'], TokenType::Throw)
    } else if i == 29 {
        (vec!['t', 'r', 'u', 'e'], TokenType::True)
    } else if i == 30 {
        (vec!['t', 'r', 'y'], TokenType::Try)
    } else if i == 31 {
        (vec!['t', 'y', 'p', 'e', 'o', 'f'], TokenType::Typeof)
    } else if i == 32 {
        (vec!['v', 'a', 'r'], TokenType::Var)
    } else if i == 33 {
        (vec!['v', 'o', 'i', 'd'], TokenType::Void)
    } else if i == 34 {
        (vec!['w', 'h', 'i', 'l', 'e'], TokenType::While)
    } else if i == 35 {
        (vec!['w', 'i', 't', 'h'], TokenType::With)
    } else if i == 36 {
        (vec!['y', 'i', 'e', 'l', 'd'], TokenType::Yield)
    } else {
        (vec![], TokenType::Identifier)
    }
}

/// A half-open range `[start, end)` of byte offsets into the source.
#[derive(Clone, Copy, Debug, PartialEq, Eq, Structural)]
pub struct Span {
    pub start: usize,
    pub end: usize,
}

/// A classified lexeme and where it stands in the source.
#[derive(Clone, Copy, Debug, PartialEq, Eq, Structural)]
pub struct Token {
    pub token_type: TokenType,
    pub span: Span,
}

impl Token {
    /// Whitespace or a line break.
    pub fn is_whitespace(&self) -> (r: bool)
        ensures
            r == (self.token_type == TokenType::Whitespace || self.token_type
                == TokenType::Linebreak),
    {
        match self.token_type {
            TokenType::Whitespace | TokenType::Linebreak => true,
            _ => false,
        }
    }
}

/// What went wrong while scanning.
#[derive(Clone, Copy, Debug, PartialEq, Eq, Structural)]
pub enum LexErrorKind {
    /// A `/*` comment without its `*/`; fatal.
    UnterminatedComment,
    /// A `'` or `"` literal that meets a line terminator or the end of input; fatal.
    UnterminatedString,
    /// A backtick literal that meets a line terminator or the end of input; fatal.
    UnterminatedTemplate,
    /// A regular expression, or one of its classes, left open; fatal.
    UnterminatedRegex,
    /// A regular expression with an unknown or repeated flag.
    InvalidRegexFlags,
    /// A number with an exponent but no digits in it, or a letter right after it.
    InvalidNumber,
    /// A character that starts no token.
    UnexpectedCharacter,
}

pub open spec fn spec_is_fatal(k: LexErrorKind) -> bool {
    match k {
        LexErrorKind::UnterminatedComment | LexErrorKind::UnterminatedString
        | LexErrorKind::UnterminatedTemplate | LexErrorKind::UnterminatedRegex => true,
        _ => false,
    }
}

/// An error, tagged with the label of the file it was found in.
#[derive(Clone, Debug)]
pub struct LexError {
    pub kind: LexErrorKind,
    pub span: Span,
    pub file_id: String,
}

/// One item of the token stream.
#[derive(Clone, Debug)]
pub enum LexItem {
    /// A token.
    Token(Token),
    /// A token with a recoverable error on it; scanning goes on.
    TokenWithError(Token, LexError),
    /// An unrecoverable error; no token, and nothing comes after it.
    Fatal(LexError),
}

impl LexItem {
    pub open spec fn spec_token(&self) -> Option<Token> {
        match self {
            LexItem::Token(t) => Some(*t),
            LexItem::TokenWithError(t, _) => Some(*t),
            LexItem::Fatal(_) => None,
        }
    }

    pub open spec fn spec_error_kind(&self) -> Option<LexErrorKind> {
        match self {
            LexItem::Token(_) => None,
            LexItem::TokenWithError(_, e) => Some(e.kind),
            LexItem::Fatal(e) => Some(e.kind),
        }
    }

    /// The token of this item, if it has one.
    pub fn token(&self) -> (r: Option<Token>)
        ensures
            r == self.spec_token(),
    {
        match self {
            LexItem::Token(t) => Some(*t),
            LexItem::TokenWithError(t, _) => Some(*t),
            LexItem::Fatal(_) => None,
        }
    }

    /// The error of this item, if it has one.
    pub fn error(&self) -> (r: Option<&LexError>)
        ensures
            r matches Some(e) ==> self.spec_error_kind() == Some(e.kind),
            r is None <==> self.spec_error_kind() is None,
    {
        match self {
            LexItem::Token(_) => None,
            LexItem::TokenWithError(_, e) => Some(e),
            LexItem::Fatal(e) => Some(e),
        }
    }
}

} // verus!
