use rslint_parse::lexer::{lex, Lexer};
use rslint_parse::token::{AssignToken, BinToken, LexErrorKind, LexItem, Token, TokenType};

use AssignToken::{
    AddAssign, LeftBitshiftAssign, RightBitshiftAssign, SubtractAssign,
    UnsignedRightBitshiftAssign,
};
use BinToken::{
    Add, Assign, Divide, Equality, GreaterThan, GreaterThanOrEqual, LeftBitshift, LessThan,
    LessThanOrEqual, RightBitshift, StrictEquality, Subtract, UnsignedRightBitshift,
};
use TokenType::{
    BinOp, AssignOp, BraceClose, BraceOpen, BracketClose, BracketOpen, Comma, Decrement,
    Function, Identifier, Increment, InlineComment, Let, Linebreak, LiteralNumber, LiteralRegEx,
    MultilineComment, ParenClose, ParenOpen, Return, Semicolon, Whitespace,
};

/// Every token of `src`; panics on any error.
fn tokens(src: &str) -> Vec<Token> {
    let mut lexer = Lexer::new(&String::from(src), "");
    let mut out = Vec::new();
    while let Some(item) = lexer.next_item() {
        if item.error().is_some() {
            panic!();
        }
        out.push(item.token().unwrap());
    }
    out
}

fn expect_tokens(tokens: &[Token], expected: &[TokenType]) {
    assert_eq!(tokens.len(), expected.len());
    for (idx, token) in tokens.iter().enumerate() {
        assert_eq!(token.token_type, expected[idx]);
    }
}

fn expect_tokens_no_whitespace(tokens: &[Token], expected: &[TokenType]) {
    let kept: Vec<&Token> = tokens.iter().filter(|x| !x.is_whitespace()).collect();
    assert_eq!(kept.len(), expected.len());
    for (idx, token) in kept.iter().enumerate() {
        assert_eq!(token.token_type, expected[idx]);
    }
}

#[test]
fn newlines() {
    let tokens = tokens("\n\r\r\n\u{2028}\u{2029}");
    expect_tokens(&tokens, &vec![Linebreak; 5]);
}

#[test]
fn empty_program() {
    let tokens = tokens("");
    let vec: Vec<TokenType> = vec![];
    expect_tokens(&tokens, &vec);
}

#[test]
fn whitespace() {
    let tokens = tokens("\u{0009}\u{000b}\u{000c}\u{0020}\u{00a0}\u{feff}");
    expect_tokens(&tokens, &vec![Whitespace; 6]);
}

#[should_panic]
#[test]
fn invalid_templ_literals() {
    let tokens = tokens("`");
    println!("{:?}", tokens);
}

#[test]
fn single_len_tokens() {
    let tokens = tokens("( ) { } [ ] ; ,");
    expect_tokens_no_whitespace(
        &tokens,
        &[ParenOpen, ParenClose, BraceOpen, BraceClose, BracketOpen, BracketClose, Semicolon, Comma],
    );
}

#[test]
fn connected_single_len_tokens() {
    let tokens = tokens("{{}}");
    println!("tokens: {:?}", tokens);
    expect_tokens(&tokens, &[BraceOpen, BraceOpen, BraceClose, BraceClose]);
}

#[test]
fn assignment() {
    let tokens = tokens("=");
    expect_tokens(&tokens, &[BinOp(Assign)]);
}

#[test]
fn equality() {
    let tokens = tokens("== === ====");
    expect_tokens_no_whitespace(
        &tokens,
        &[BinOp(Equality), BinOp(StrictEquality), BinOp(StrictEquality), BinOp(Assign)],
    );
}

#[test]
fn multiple_whitespace() {
    let tokens = tokens(" a   ");
    expect_tokens(&tokens, &[Whitespace, Identifier, Whitespace, Whitespace, Whitespace]);
}

#[test]
fn plus_sign() {
    let tokens = tokens("+ ++ += +++");
    expect_tokens_no_whitespace(
        &tokens,
        &[BinOp(Add), Increment, AssignOp(AddAssign), Increment, BinOp(Add)],
    );
}

#[test]
fn minus_sign() {
    let tokens = tokens("- -- -= ---");
    expect_tokens_no_whitespace(
        &tokens,
        &[BinOp(Subtract), Decrement, AssignOp(SubtractAssign), Decrement, BinOp(Subtract)],
    );
}

#[test]
fn less_than_sign() {
    let tokens = tokens("< << <<= <= <<<<==<<=");
    expect_tokens_no_whitespace(
        &tokens,
        &[
            BinOp(LessThan),
            BinOp(LeftBitshift),
            AssignOp(LeftBitshiftAssign),
            BinOp(LessThanOrEqual),
            BinOp(LeftBitshift),
            AssignOp(LeftBitshiftAssign),
            BinOp(Assign),
            AssignOp(LeftBitshiftAssign),
        ],
    );
}

#[test]
fn greater_than_sign() {
    let tokens = tokens("> >> >>> >>= >>>= >>>>==>>=");
    for i in tokens.clone() {
        println!("tok: {:?}", i);
    }
    expect_tokens_no_whitespace(
        &tokens,
        &[
            BinOp(GreaterThan),
            BinOp(RightBitshift),
            BinOp(UnsignedRightBitshift),
            AssignOp(RightBitshiftAssign),
            AssignOp(UnsignedRightBitshiftAssign),
            BinOp(UnsignedRightBitshift),
            BinOp(GreaterThanOrEqual),
            BinOp(Assign),
            AssignOp(RightBitshiftAssign),
        ],
    );
}

#[test]
fn inline_comment() {
    let tokens = tokens("// this is an inline comment");
    expect_tokens(&tokens, &[InlineComment]);
}

#[test]
fn multiline_comment() {
    let tokens = tokens("/* this
      is a multiline comment
      */");
    println!("toks: {:?}", tokens);
    expect_tokens(&tokens, &[MultilineComment]);
}

#[should_panic]
#[test]
fn multiline_unterminated_comment() {
    tokens("/* this
    is a multiline unterminated comment
    ");
}

#[test]
fn dot_start_decimal_literal() {
    let tokens = tokens(".642 .643e5 .6433e+6 .653e-77 .6E-6");
    expect_tokens_no_whitespace(
        &tokens,
        &[LiteralNumber, LiteralNumber, LiteralNumber, LiteralNumber, LiteralNumber],
    );
}

#[test]
fn brace_stmt_regex() {
    let tokens = tokens("/a[gg]/gim");
    expect_tokens_no_whitespace(&tokens, &[LiteralRegEx]);
}

#[test]
fn division() {
    let tokens = tokens("let a = 6 / 3;");
    expect_tokens_no_whitespace(
        &tokens,
        &[Let, Identifier, BinOp(Assign), LiteralNumber, BinOp(Divide), LiteralNumber, Semicolon],
    );
}

#[test]
fn returned_regex_in_func() {
    let tokens = tokens("
      function a() {
        return /aaa/g
      }
    ");
    expect_tokens_no_whitespace(
        &tokens,
        &[Function, Identifier, ParenOpen, ParenClose, BraceOpen, Return, LiteralRegEx, BraceClose],
    );
}

#[should_panic]
#[test]
fn regex_invalid_flags() {
    tokens("/ga[gg]/gh");
}

// Further cases on the stream, its spans and its errors.

fn rebuild(src: &str, items: &[LexItem]) -> String {
    let mut out = String::new();
    for item in items {
        if let Some(t) = item.token() {
            out.push_str(&src[t.span.start..t.span.end]);
        }
    }
    out
}

#[test]
fn spans_rebuild_the_source() {
    let src = "let x = `t` + 'a\\'b' /* c */ // d\r\n\u{feff}é\u{2028}/re[/]/g / 2;";
    let items = lex(src, "f");
    assert!(items.iter().all(|i| i.error().is_none()));
    assert_eq!(rebuild(src, &items), src);
    let mut at = 0;
    for item in &items {
        let t = item.token().unwrap();
        assert_eq!(t.span.start, at);
        assert!(t.span.end > t.span.start);
        at = t.span.end;
    }
    assert_eq!(at, src.len());
}

#[test]
fn byte_spans_of_multibyte_characters() {
    let items = lex("\u{feff}\u{2028}é", "");
    let spans: Vec<(usize, usize)> =
        items.iter().map(|i| { let t = i.token().unwrap(); (t.span.start, t.span.end) }).collect();
    assert_eq!(spans, vec![(0, 3), (3, 6), (6, 8)]);
    assert_eq!(items[2].token().unwrap().token_type, Identifier);
}

#[test]
fn crlf_is_one_linebreak() {
    let items = lex("\r\n\r", "");
    assert_eq!(items.len(), 2);
    assert_eq!(items[0].token().unwrap().span.end, 2);
    assert_eq!(items[1].token().unwrap().token_type, Linebreak);
}

#[test]
fn empty_input_yields_nothing() {
    assert!(lex("", "x").is_empty());
    let mut lexer = Lexer::new("", "x");
    assert!(lexer.next_item().is_none());
}

#[test]
fn operator_maximal_munch() {
    let toks = tokens("=== ====");
    expect_tokens_no_whitespace(
        &toks,
        &[BinOp(StrictEquality), BinOp(StrictEquality), BinOp(Assign)],
    );
    let toks = tokens("<<<<==<<=");
    expect_tokens(
        &toks,
        &[BinOp(LeftBitshift), AssignOp(LeftBitshiftAssign), BinOp(Assign), AssignOp(LeftBitshiftAssign)],
    );
    let toks = tokens(">>>>==>>=");
    expect_tokens(
        &toks,
        &[BinOp(UnsignedRightBitshift), BinOp(GreaterThanOrEqual), BinOp(Assign), AssignOp(RightBitshiftAssign)],
    );
}

#[test]
fn slash_after_value_divides() {
    expect_tokens_no_whitespace(&tokens("a / b"), &[Identifier, BinOp(Divide), Identifier]);
    expect_tokens_no_whitespace(&tokens("(1) /2/ 3"), &[
        ParenOpen, LiteralNumber, ParenClose, BinOp(Divide), LiteralNumber, BinOp(Divide),
        LiteralNumber,
    ]);
    expect_tokens_no_whitespace(&tokens("a /= 2"), &[Identifier, AssignOp(AssignToken::DivideAssign), LiteralNumber]);
    expect_tokens_no_whitespace(&tokens("( /x/"), &[ParenOpen, LiteralRegEx]);
}

#[test]
fn keyword_needs_whole_word() {
    expect_tokens(&tokens("lets"), &[Identifier]);
    expect_tokens(&tokens("let"), &[Let]);
    expect_tokens(&tokens("returned"), &[Identifier]);
}

fn fatal_of(src: &str) -> LexErrorKind {
    let items = lex(src, "file.js");
    let last = items.last().unwrap();
    assert!(last.token().is_none());
    assert!(items[..items.len() - 1].iter().all(|i| i.token().is_some()));
    let err = last.error().unwrap();
    assert_eq!(err.file_id, "file.js");
    err.kind
}

#[test]
fn unterminated_constructs_are_fatal() {
    assert_eq!(fatal_of("a `abc"), LexErrorKind::UnterminatedTemplate);
    assert_eq!(fatal_of("x /* abc"), LexErrorKind::UnterminatedComment);
    assert_eq!(fatal_of("'abc\n'"), LexErrorKind::UnterminatedString);
    assert_eq!(fatal_of("\"abc"), LexErrorKind::UnterminatedString);
    assert_eq!(fatal_of("/abc"), LexErrorKind::UnterminatedRegex);
    assert_eq!(fatal_of("/a[/]"), LexErrorKind::UnterminatedRegex);
}

#[test]
fn nothing_after_a_fatal_error() {
    let mut lexer = Lexer::new("a /* b", "");
    let mut saw_fatal = false;
    while let Some(item) = lexer.next_item() {
        assert!(!saw_fatal);
        if item.token().is_none() {
            saw_fatal = true;
            let e = item.error().unwrap();
            assert_eq!((e.span.start, e.span.end), (2, 3));
        }
    }
    assert!(saw_fatal);
    assert!(lexer.next_item().is_none());
}

#[test]
fn invalid_regex_flags_keep_the_token() {
    let items = lex("/ga[gg]/gh;", "f");
    assert_eq!(items.len(), 2);
    match &items[0] {
        LexItem::TokenWithError(t, e) => {
            assert_eq!(t.token_type, LiteralRegEx);
            assert_eq!((t.span.start, t.span.end), (0, 10));
            assert_eq!(e.kind, LexErrorKind::InvalidRegexFlags);
            assert_eq!(e.span, t.span);
        }
        _ => panic!(),
    }
    assert_eq!(items[1].token().unwrap().token_type, Semicolon);
    let items = lex("/a/gg", "f");
    assert_eq!(items[0].error().unwrap().kind, LexErrorKind::InvalidRegexFlags);
}

#[test]
fn numbers() {
    for src in [".642", ".643e5", ".6433e+6", ".653e-77", ".6E-6", "42", "3.25", "7."] {
        let items = lex(src, "");
        assert_eq!(items.len(), 1);
        let t = items[0].token().unwrap();
        assert_eq!(t.token_type, LiteralNumber);
        assert_eq!(t.span.end, src.len());
        assert!(items[0].error().is_none());
    }
    assert_eq!(lex("1e+", "")[0].error().unwrap().kind, LexErrorKind::InvalidNumber);
    assert_eq!(lex("12ab", "")[0].error().unwrap().kind, LexErrorKind::InvalidNumber);
    assert_eq!(lex("12ab", "")[0].token().unwrap().span.end, 2);
}

#[test]
fn unexpected_character() {
    let items = lex("#a", "");
    assert_eq!(items.len(), 2);
    assert_eq!(items[0].token().unwrap().token_type, TokenType::Invalid);
    assert_eq!(items[0].error().unwrap().kind, LexErrorKind::UnexpectedCharacter);
    assert_eq!(items[1].token().unwrap().token_type, Identifier);
}

#[test]
fn strings_and_templates() {
    let items = lex("'a\\'b' `c`", "");
    assert_eq!(items.len(), 3);
    assert_eq!(items[0].token().unwrap().token_type, TokenType::LiteralString);
    assert_eq!(items[0].token().unwrap().span.end, 6);
    assert_eq!(items[2].token().unwrap().token_type, TokenType::LiteralTemplate);
}

#[test]
fn inline_comment_stops_before_linebreak() {
    let items = lex("// a\nb", "");
    assert_eq!(items.len(), 3);
    assert_eq!(items[0].token().unwrap().span.end, 4);
    assert_eq!(items[1].token().unwrap().token_type, Linebreak);
}
