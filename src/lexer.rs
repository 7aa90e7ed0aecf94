//! The lexer driver: one step of the scan, the whole stream it yields, and the
//! laws that the stream obeys.
use vstd::prelude::*;
use vstd::std_specs::iter::IteratorSpec;
use crate::chars::{
    byte_offset, char_utf8_len, is_digit, is_id_start, is_linebreak, is_whitespace,
    lemma_byte_offset_bound, lemma_byte_offset_monotonic, spec_is_digit, spec_is_id_start, spec_is_linebreak,
    spec_is_whitespace, utf8_len,
};
use crate::operators::{
    classify_word, lemma_operator_nonempty, match_operator, operator_at_pos, word_kind,
};
use crate::scan::{
    lemma_block_comment_end_bound, lemma_ident_end_bound, lemma_line_end_bound, lemma_number_bound,
    lemma_quoted_end_bound, lemma_regex_body_end_bound, block_comment_end, check_flags, flags_valid, ident_end, line_end, number_scan, quoted_end,
    regex_body_end, scan_block_comment_end, scan_ident_end, scan_line_end, scan_number,
    scan_quoted_end, scan_regex_body_end,
};
use crate::token::{
    spec_can_end_expression, spec_is_fatal, spec_is_trivia, LexError, LexErrorKind, LexItem, Span, Token,
    TokenType,
};

verus! {

/// The outcome of one step of the scan, over character positions.
pub enum Step {
    /// The input is exhausted.
    Done,
    /// An unrecoverable error at the current position.
    Fatal(LexErrorKind),
    /// A token of the given kind that ends at the given position, with an
    /// optional recoverable error.
    Emit(TokenType, int, Option<LexErrorKind>),
}

/// One item of the stream, over character positions.
pub struct SpecItem {
    pub token: Option<TokenType>,
    pub start: int,
    pub end: int,
    pub error: Option<LexErrorKind>,
}

/// The single-character structural tokens.
pub open spec fn spec_structural(c: char) -> Option<TokenType> {
    if c == '(' {
        Some(TokenType::ParenOpen)
    } else if c == ')' {
        Some(TokenType::ParenClose)
    } else if c == '{' {
        Some(TokenType::BraceOpen)
    } else if c == '}' {
        Some(TokenType::BraceClose)
    } else if c == '[' {
        Some(TokenType::BracketOpen)
    } else if c == ']' {
        Some(TokenType::BracketClose)
    } else if c == ';' {
        Some(TokenType::Semicolon)
    } else if c == ',' {
        Some(TokenType::Comma)
    } else {
        None
    }
}

pub open spec fn next_is(s: Seq<char>, pos: int, d: char) -> bool {
    0 <= pos + 1 < s.len() && s[pos + 1] == d
}

/// A `/` divides when the last significant token can end an expression;
/// otherwise it opens a regular expression.
pub open spec fn slash_divides(prev: Option<TokenType>) -> bool {
    prev matches Some(k) && spec_can_end_expression(k)
}

/// The last significant token once a token of kind `t` has been emitted.
pub open spec fn next_prev(prev: Option<TokenType>, t: TokenType) -> Option<TokenType> {
    if spec_is_trivia(t) {
        prev
    } else {
        Some(t)
    }
}

/// One step of the scan at position `pos`, `prev` being the last significant
/// token before it.
pub open spec fn step(s: Seq<char>, pos: int, prev: Option<TokenType>) -> Step {
    if pos < 0 || pos >= s.len() {
        Step::Done
    } else {
        let c = s[pos];
        if spec_is_linebreak(c) {
            let e = if c == '\r' && next_is(s, pos, '\n') {
                pos + 2
            } else {
                pos + 1
            };
            Step::Emit(TokenType::Linebreak, e, None)
        } else if spec_is_whitespace(c) {
            Step::Emit(TokenType::Whitespace, pos + 1, None)
        } else if spec_structural(c) is Some {
            Step::Emit(spec_structural(c).unwrap(), pos + 1, None)
        } else if spec_is_id_start(c) {
            let e = ident_end(s, pos + 1);
            Step::Emit(word_kind(s.subrange(pos, e)), e, None)
        } else if spec_is_digit(c) || (c == '.' && pos + 1 < s.len() && spec_is_digit(s[pos + 1])) {
            let (e, bad) = number_scan(s, pos);
            Step::Emit(
                TokenType::LiteralNumber,
                e,
                if bad {
                    Some(LexErrorKind::InvalidNumber)
                } else {
                    None
                },
            )
        } else if c == '"' || c == '\'' {
            match quoted_end(s, pos + 1, c) {
                Some(e) => Step::Emit(TokenType::LiteralString, e, None),
                None => Step::Fatal(LexErrorKind::UnterminatedString),
            }
        } else if c == '`' {
            match quoted_end(s, pos + 1, c) {
                Some(e) => Step::Emit(TokenType::LiteralTemplate, e, None),
                None => Step::Fatal(LexErrorKind::UnterminatedTemplate),
            }
        } else if c == '/' && next_is(s, pos, '/') {
            Step::Emit(TokenType::InlineComment, line_end(s, pos + 2), None)
        } else if c == '/' && next_is(s, pos, '*') {
            match block_comment_end(s, pos + 2) {
                Some(e) => Step::Emit(TokenType::MultilineComment, e, None),
                None => Step::Fatal(LexErrorKind::UnterminatedComment),
            }
        } else if c == '/' && !slash_divides(prev) {
            match regex_body_end(s, pos + 1, false) {
                Some(b) => {
                    let f = ident_end(s, b);
                    Step::Emit(
                        TokenType::LiteralRegEx,
                        f,
                        if flags_valid(s.subrange(b, f)) {
                            None
                        } else {
                            Some(LexErrorKind::InvalidRegexFlags)
                        },
                    )
                },
                None => Step::Fatal(LexErrorKind::UnterminatedRegex),
            }
        } else {
            match operator_at_pos(s, pos) {
                Some((k, n)) => Step::Emit(k, pos + n, None),
                None => Step::Emit(
                    TokenType::Invalid,
                    pos + 1,
                    Some(LexErrorKind::UnexpectedCharacter),
                ),
            }
        }
    }
}

/// The whole stream that scanning `s` from `pos` yields.
pub open spec fn run(s: Seq<char>, pos: int, prev: Option<TokenType>) -> Seq<SpecItem>
    decreases s.len() - pos,
{
    match step(s, pos, prev) {
        Step::Done => seq![],
        Step::Fatal(k) => seq![SpecItem { token: None, start: pos, end: pos, error: Some(k) }],
        Step::Emit(t, e, err) => if pos < e <= s.len() {
            seq![SpecItem { token: Some(t), start: pos, end: e, error: err }] + run(
                s,
                e,
                next_prev(prev, t),
            )
        } else {
            seq![]
        },
    }
}

/// Where the scan that starts at `pos` stops: the end of input, or where an
/// unrecoverable error was met.
pub open spec fn stop(s: Seq<char>, pos: int, prev: Option<TokenType>) -> int
    decreases s.len() - pos,
{
    match step(s, pos, prev) {
        Step::Emit(t, e, err) => if pos < e <= s.len() {
            stop(s, e, next_prev(prev, t))
        } else {
            pos
        },
        _ => pos,
    }
}

/// The source text that the tokens of `items` cover, in order.
pub open spec fn texts(s: Seq<char>, items: Seq<SpecItem>) -> Seq<char>
    decreases items.len(),
{
    if items.len() == 0 {
        seq![]
    } else {
        s.subrange(items[0].start, items[0].end) + texts(s, items.drop_first())
    }
}

/// The item `it` of the stream over `s` stands for `sp`: same kind and error,
/// and byte spans at the UTF-8 offsets of its character positions.
pub open spec fn item_matches(s: Seq<char>, file_id: Seq<char>, it: LexItem, sp: SpecItem) -> bool {
    match it {
        LexItem::Token(t) => sp.token == Some(t.token_type) && sp.error is None && t.span.start
            == byte_offset(s, sp.start) && t.span.end == byte_offset(s, sp.end),
        LexItem::TokenWithError(t, e) => sp.token == Some(t.token_type) && sp.error == Some(
            e.kind,
        ) && t.span.start == byte_offset(s, sp.start) && t.span.end == byte_offset(s, sp.end)
            && e.span == t.span && e.file_id@ == file_id,
        LexItem::Fatal(e) => sp.token is None && sp.error == Some(e.kind) && e.span.start
            == byte_offset(s, sp.start) && e.span.end == byte_offset(s, sp.start + 1)
            && e.file_id@ == file_id,
    }
}

/// A scan of one source text: its characters, the label of its file, and how
/// far it has gone.
pub struct Lexer {
    source: Vec<char>,
    file_id: String,
    pos: usize,
    byte_pos: usize,
    prev: Option<TokenType>,
    halted: bool,
}

impl Lexer {
    pub closed spec fn chars(&self) -> Seq<char> {
        self.source@
    }

    pub closed spec fn file_label(&self) -> Seq<char> {
        self.file_id@
    }

    /// What the scan still has to yield.
    pub closed spec fn remaining(&self) -> Seq<SpecItem> {
        if self.halted {
            seq![]
        } else {
            run(self.source@, self.pos as int, self.prev)
        }
    }

    pub closed spec fn wf(&self) -> bool {
        &&& self.pos <= self.source.len()
        &&& self.source.len() <= usize::MAX / 4
        &&& self.byte_pos == byte_offset(self.source@, self.pos as int)
    }

    /// A lexer over `source`, whose errors carry `file_id`. Byte offsets are
    /// kept in `usize`, so the source holds at most `usize::MAX / 4` characters.
    pub fn new(source: &str, file_id: &str) -> (r: Lexer)
        requires
            source@.len() <= usize::MAX / 4,
        ensures
            r.wf(),
            r.chars() == source@,
            r.file_label() == file_id@,
            r.remaining() == run(source@, 0, None),
    {
        broadcast use vstd::string::axiom_spec_iter, vstd::string::next_postcondition;

        let mut it = source.chars();
        let mut chars: Vec<char> = Vec::new();
        loop
            invariant
                chars@ + it.remaining() == source@,
                it.decrease() is Some,
            ensures
                chars@ == source@,
            decreases it.decrease()->0,
        {
            match it.next() {
                Some(c) => {
                    chars.push(c);
                },
                None => {
                    break ;
                },
            }
        }
        Lexer::from_chars(chars, file_id.to_owned())
    }

    /// A lexer over the characters `source`, whose errors carry `file_id`.
    pub fn from_chars(source: Vec<char>, file_id: String) -> (r: Lexer)
        requires
            source@.len() <= usize::MAX / 4,
        ensures
            r.wf(),
            r.chars() == source@,
            r.file_label() == file_id@,
            r.remaining() == run(source@, 0, None),
    {
        Lexer { source, file_id, pos: 0, byte_pos: 0, prev: None, halted: false }
    }

    fn structural(c: char) -> (r: Option<TokenType>)
        ensures
            r == spec_structural(c),
    {
        if c == '(' {
            Some(TokenType::ParenOpen)
        } else if c == ')' {
            Some(TokenType::ParenClose)
        } else if c == '{' {
            Some(TokenType::BraceOpen)
        } else if c == '}' {
            Some(TokenType::BraceClose)
        } else if c == '[' {
            Some(TokenType::BracketOpen)
        } else if c == ']' {
            Some(TokenType::BracketClose)
        } else if c == ';' {
            Some(TokenType::Semicolon)
        } else if c == ',' {
            Some(TokenType::Comma)
        } else {
            None
        }
    }

    /// Decides the next step at the current position, which is before the end.
    fn decide(&self) -> (r: Result<(TokenType, usize, Option<LexErrorKind>), LexErrorKind>)
        requires
            self.wf(),
            self.pos < self.source.len(),
        ensures
            match step(self.source@, self.pos as int, self.prev) {
                Step::Emit(t, e, err) => self.pos < e <= self.source.len() && r == Ok::<
                    _,
                    LexErrorKind,
                >((t, e as usize, err)),
                Step::Fatal(k) => r == Err::<(TokenType, usize, Option<LexErrorKind>), _>(k),
                Step::Done => false,
            },
    {
        let s = &self.source;
        let pos = self.pos;
        let c = s[pos];
        let next_is_lf = pos + 1 < s.len() && s[pos + 1] == '\n';
        let next_is_slash = pos + 1 < s.len() && s[pos + 1] == '/';
        let next_is_star = pos + 1 < s.len() && s[pos + 1] == '*';
        if is_linebreak(c) {
            let e = if c == '\r' && next_is_lf {
                pos + 2
            } else {
                pos + 1
            };
            Ok((TokenType::Linebreak, e, None))
        } else if is_whitespace(c) {
            Ok((TokenType::Whitespace, pos + 1, None))
        } else if let Some(k) = Lexer::structural(c) {
            Ok((k, pos + 1, None))
        } else if is_id_start(c) {
            let e = scan_ident_end(s, pos + 1);
            Ok((classify_word(s, pos, e), e, None))
        } else if is_digit(c) || (c == '.' && pos + 1 < s.len() && is_digit(s[pos + 1])) {
            proof {
                lemma_number_bound(s@, pos as int);
            }
            let (e, bad) = scan_number(s, pos);
            Ok((
                TokenType::LiteralNumber,
                e,
                if bad {
                    Some(LexErrorKind::InvalidNumber)
                } else {
                    None
                },
            ))
        } else if c == '"' || c == '\'' {
            match scan_quoted_end(s, pos + 1, c) {
                Some(e) => Ok((TokenType::LiteralString, e, None)),
                None => Err(LexErrorKind::UnterminatedString),
            }
        } else if c == '`' {
            match scan_quoted_end(s, pos + 1, c) {
                Some(e) => Ok((TokenType::LiteralTemplate, e, None)),
                None => Err(LexErrorKind::UnterminatedTemplate),
            }
        } else if c == '/' && next_is_slash {
            Ok((TokenType::InlineComment, scan_line_end(s, pos + 2), None))
        } else if c == '/' && next_is_star {
            match scan_block_comment_end(s, pos + 2) {
                Some(e) => Ok((TokenType::MultilineComment, e, None)),
                None => Err(LexErrorKind::UnterminatedComment),
            }
        } else if c == '/' && !(match self.prev {
            Some(k) => k.can_end_expression(),
            None => false,
        }) {
            match scan_regex_body_end(s, pos + 1) {
                Some(b) => {
                    let f = scan_ident_end(s, b);
                    let ok = check_flags(s, b, f);
                    Ok((
                        TokenType::LiteralRegEx,
                        f,
                        if ok {
                            None
                        } else {
                            Some(LexErrorKind::InvalidRegexFlags)
                        },
                    ))
                },
                None => Err(LexErrorKind::UnterminatedRegex),
            }
        } else {
            match match_operator(s, pos) {
                Some((k, n)) => {
                    proof {
                        lemma_operator_nonempty(s@, pos as int);
                    }
                    Ok((k, pos + n, None))
                },
                None => Ok((TokenType::Invalid, pos + 1, Some(LexErrorKind::UnexpectedCharacter))),
            }
        }
    }

    /// Yields the next item of the stream, or `None` once it is over.
    pub fn next_item(&mut self) -> (r: Option<LexItem>)
        requires
            old(self).wf(),
        ensures
            final(self).wf(),
            final(self).chars() == old(self).chars(),
            final(self).file_label() == old(self).file_label(),
            r is None <==> old(self).remaining().len() == 0,
            r is None ==> final(self).remaining() == old(self).remaining(),
            r matches Some(it) ==> item_matches(
                old(self).chars(),
                old(self).file_label(),
                it,
                old(self).remaining()[0],
            ) && final(self).remaining() == old(self).remaining().drop_first(),
    {
        if self.halted || self.pos >= self.source.len() {
            return None;
        }
        let ghost s = self.source@;
        let ghost items = run(s, self.pos as int, self.prev);
        proof {
            lemma_byte_offset_bound(s, self.pos as int + 1);
        }
        match self.decide() {
            Err(kind) => {
                let start = self.byte_pos;
                let end = start + char_utf8_len(self.source[self.pos]);
                self.halted = true;
                let e = LexError { kind, span: Span { start, end }, file_id: self.file_id.clone() };
                Some(LexItem::Fatal(e))
            },
            Ok((kind, end, err)) => {
                let start = self.byte_pos;
                let mut k = self.pos;
                let mut b = self.byte_pos;
                while k < end
                    invariant
                        self.pos <= k <= end <= self.source.len(),
                        self.source.len() <= usize::MAX / 4,
                        b == byte_offset(self.source@, k as int),
                    decreases end - k,
                {
                    proof {
                        lemma_byte_offset_bound(self.source@, k as int + 1);
                    }
                    b = b + char_utf8_len(self.source[k]);
                    k += 1;
                }
                let token = Token { token_type: kind, span: Span { start, end: b } };
                self.pos = end;
                self.byte_pos = b;
                if !kind.is_trivia() {
                    self.prev = Some(kind);
                }
                assert(items.drop_first() =~= run(s, end as int, self.prev));
                match err {
                    None => Some(LexItem::Token(token)),
                    Some(ek) => Some(
                        LexItem::TokenWithError(
                            token,
                            LexError { kind: ek, span: token.span, file_id: self.file_id.clone() },
                        ),
                    ),
                }
            },
        }
    }
}

/// Scans all of `source`: every item of the stream, in order.
pub fn lex(source: &str, file_id: &str) -> (r: Vec<LexItem>)
    requires
        source@.len() <= usize::MAX / 4,
    ensures
        r@.len() == run(source@, 0, None).len(),
        forall|i: int|
            0 <= i < r@.len() ==> item_matches(
                source@,
                file_id@,
                #[trigger] r@[i],
                run(source@, 0, None)[i],
            ),
{
    let mut lexer = Lexer::new(source, file_id);
    let ghost all = run(source@, 0, None);
    let mut out: Vec<LexItem> = Vec::new();
    loop
        invariant
            lexer.wf(),
            lexer.chars() == source@,
            lexer.file_label() == file_id@,
            all == run(source@, 0, None),
            out@.len() + lexer.remaining().len() == all.len(),
            lexer.remaining() == all.subrange(out@.len() as int, all.len() as int),
            forall|i: int|
                0 <= i < out@.len() ==> item_matches(source@, file_id@, #[trigger] out@[i], all[i]),
        ensures
            out@.len() == all.len(),
            forall|i: int|
                0 <= i < out@.len() ==> item_matches(source@, file_id@, #[trigger] out@[i], all[i]),
        decreases lexer.remaining().len(),
    {
        let ghost before = lexer.remaining();
        match lexer.next_item() {
            None => {
                break ;
            },
            Some(it) => {
                assert(before[0] == all[out@.len() as int]);
                out.push(it);
                assert(lexer.remaining() =~= all.subrange(out@.len() as int, all.len() as int));
            },
        }
    }
    out
}

/// Every token that a step emits is non-empty and lies within the input.
pub proof fn lemma_step_progress(s: Seq<char>, pos: int, prev: Option<TokenType>)
    requires
        0 <= pos <= s.len(),
    ensures
        step(s, pos, prev) matches Step::Emit(t, e, err) ==> pos < e <= s.len(),
        step(s, pos, prev) matches Step::Fatal(k) ==> pos < s.len() && spec_is_fatal(k),
        step(s, pos, prev) is Done <==> pos == s.len(),
{
    if pos < s.len() {
        let c = s[pos];
        lemma_ident_end_bound(s, pos + 1);
        lemma_line_end_bound(s, pos + 1);
        if pos + 2 <= s.len() {
            lemma_line_end_bound(s, pos + 2);
        }
        if spec_is_digit(c) || (c == '.' && pos + 1 < s.len() && spec_is_digit(s[pos + 1])) {
            lemma_number_bound(s, pos);
        }
        lemma_quoted_end_bound(s, pos + 1, c);
        lemma_block_comment_end_bound(s, pos + 2);
        lemma_regex_body_end_bound(s, pos + 1, false);
        if let Some(b) = regex_body_end(s, pos + 1, false) {
            lemma_ident_end_bound(s, b);
        }
        lemma_operator_nonempty(s, pos);
    }
}

/// The shape of the stream from `pos` on: its items tile the text from `pos`
/// to where the scan stops, each token is non-empty, the tokens' texts put
/// together give that text back, and an unrecoverable error, if any, is the
/// last item and carries no token.
pub proof fn lemma_run_shape(s: Seq<char>, pos: int, prev: Option<TokenType>)
    requires
        0 <= pos <= s.len(),
    ensures
        ({
            let items = run(s, pos, prev);
            let st = stop(s, pos, prev);
            &&& pos <= st <= s.len()
            &&& texts(s, items) == s.subrange(pos, st)
            &&& items.len() > 0 ==> items[0].start == pos
            &&& forall|i: int|
                0 <= i < items.len() ==> pos <= (#[trigger] items[i]).start <= items[i].end
                    <= s.len()
            &&& forall|i: int, j: int|
                0 <= i && j == i + 1 && j < items.len() ==> (#[trigger] items[i]).end
                    == (#[trigger] items[j]).start
            &&& forall|i: int|
                0 <= i < items.len() ==> ((#[trigger] items[i]).token is Some ==> items[i].start
                    < items[i].end <= s.len())
            &&& forall|i: int|
                0 <= i < items.len() ==> ((#[trigger] items[i]).token is None ==> i == items.len()
                    - 1 && items[i].start == items[i].end && items[i].start == st && st < s.len()
                    && (items[i].error matches Some(k) && spec_is_fatal(k)))
            &&& (forall|i: int| 0 <= i < items.len() ==> (#[trigger] items[i]).token is Some)
                ==> st == s.len()
            &&& (items.len() > 0 && items.last().token is Some) ==> items.last().end == s.len()
        }),
    decreases s.len() - pos,
{
    lemma_step_progress(s, pos, prev);
    let items = run(s, pos, prev);
    match step(s, pos, prev) {
        Step::Done => {
            assert(s.subrange(pos, pos) =~= seq![]);
        },
        Step::Fatal(k) => {
            assert(items.drop_first() =~= seq![]);
            assert(s.subrange(pos, pos) =~= seq![]);
            assert(texts(s, items.drop_first()) =~= seq![]);
            assert(texts(s, items) =~= s.subrange(pos, pos));
            assert(items[0].token is None);
        },
        Step::Emit(t, e, err) => {
            let p2 = next_prev(prev, t);
            lemma_run_shape(s, e, p2);
            let rest = run(s, e, p2);
            assert(items.drop_first() =~= rest);
            assert(s.subrange(pos, e) + s.subrange(e, stop(s, e, p2)) =~= s.subrange(
                pos,
                stop(s, e, p2),
            ));
            assert forall|i: int, j: int| 0 <= i && j == i + 1 && j < items.len() implies (
            #[trigger] items[i]).end == (#[trigger] items[j]).start by {
                if i > 0 {
                    assert(items[i] == rest[i - 1]);
                    assert(items[j] == rest[i]);
                    assert(rest[i - 1].end == rest[i].start);
                } else {
                    assert(items[j] == rest[0]);
                }
            }
            assert forall|i: int| 0 <= i < items.len() implies pos <= (#[trigger] items[i]).start
                <= items[i].end <= s.len() by {
                if i > 0 {
                    assert(items[i] == rest[i - 1]);
                }
            }
            assert forall|i: int| 0 <= i < items.len() && (#[trigger] items[i]).token is Some implies items[i].start < items[i].end <= s.len() by {
                if i > 0 {
                    assert(items[i] == rest[i - 1]);
                }
            }
            assert forall|i: int| 0 <= i < items.len() && (#[trigger] items[i]).token is None implies (i == items.len() - 1 && items[i].start == items[i].end && items[i].start
                == stop(s, pos, prev) && stop(s, pos, prev) < s.len() && (items[i].error matches Some(
                k,
            ) && spec_is_fatal(k))) by {
                if i > 0 {
                    assert(items[i] == rest[i - 1]);
                }
            }
            if forall|i: int| 0 <= i < items.len() ==> (#[trigger] items[i]).token is Some {
                assert forall|i: int| 0 <= i < rest.len() implies (#[trigger] rest[i]).token is Some by {
                    assert(rest[i] == items[i + 1]);
                }
            }
            if rest.len() > 0 {
                assert(items.last() == rest.last());
            }
        },
    }
}

/// Losslessness: when no unrecoverable error is met, the texts of the tokens,
/// in order, put together give back the whole source; in any case they give
/// back the source up to where the scan stopped.
pub proof fn lemma_lossless(s: Seq<char>)
    ensures
        texts(s, run(s, 0, None)) == s.subrange(0, stop(s, 0, None)),
        (forall|i: int|
            0 <= i < run(s, 0, None).len() ==> (#[trigger] run(s, 0, None)[i]).token is Some)
            ==> texts(s, run(s, 0, None)) == s,
{
    lemma_run_shape(s, 0, None);
    assert(s.subrange(0, s.len() as int) =~= s);
}

/// An unrecoverable error ends the stream: the item that carries it has no
/// token, and no item comes after it.
pub proof fn lemma_fatal_ends_stream(s: Seq<char>, i: int)
    requires
        0 <= i < run(s, 0, None).len(),
        run(s, 0, None)[i].token is None,
    ensures
        i == run(s, 0, None).len() - 1,
        run(s, 0, None)[i].error matches Some(k) && spec_is_fatal(k),
{
    lemma_run_shape(s, 0, None);
    assert(run(s, 0, None)[i].token is None);
}

/// The byte spans of a stream that `lex` yields tile the source: each token is
/// non-empty, the first item starts at offset 0, each token starts where the one
/// before it ends, and when no unrecoverable error is met the last token ends at
/// the source's length in bytes.
pub proof fn lemma_spans_tile(s: Seq<char>, file_id: Seq<char>, r: Seq<LexItem>)
    requires
        r.len() == run(s, 0, None).len(),
        forall|i: int| 0 <= i < r.len() ==> item_matches(s, file_id, #[trigger] r[i], run(s, 0, None)[i]),
    ensures
        forall|i: int|
            0 <= i < r.len() && (#[trigger] r[i].spec_token()) is Some ==> r[i].spec_token()->0.span.start
                < r[i].spec_token()->0.span.end,
        r.len() > 0 && r[0].spec_token() is Some ==> r[0].spec_token()->0.span.start == 0,
        forall|i: int, j: int|
            0 <= i && j == i + 1 && j < r.len() && (#[trigger] r[i].spec_token()) is Some && (
            #[trigger] r[j].spec_token()) is Some ==> r[i].spec_token()->0.span.end
                == r[j].spec_token()->0.span.start,
        (forall|i: int| 0 <= i < r.len() ==> (#[trigger] r[i].spec_token()) is Some) && r.len() > 0
            ==> r.last().spec_token()->0.span.end == byte_offset(s, s.len() as int),
{
    let items = run(s, 0, None);
    lemma_run_shape(s, 0, None);
    assert forall|i: int| 0 <= i < r.len() && (#[trigger] r[i].spec_token()) is Some implies r[i].spec_token()->0.span.start
        < r[i].spec_token()->0.span.end by {
        assert(item_matches(s, file_id, r[i], items[i]));
        assert(items[i].token is Some);
        lemma_byte_offset_monotonic(s, items[i].start, items[i].end);
    }
    if r.len() > 0 {
        assert(item_matches(s, file_id, r[0], items[0]));
    }
    assert forall|i: int, j: int|
        0 <= i && j == i + 1 && j < r.len() && (#[trigger] r[i].spec_token()) is Some && (
        #[trigger] r[j].spec_token()) is Some implies r[i].spec_token()->0.span.end
        == r[j].spec_token()->0.span.start by {
        assert(item_matches(s, file_id, r[i], items[i]));
        assert(item_matches(s, file_id, r[j], items[j]));
        assert(items[i].end == items[j].start);
        assert(items[j].token is Some);
    }
    if (forall|i: int| 0 <= i < r.len() ==> (#[trigger] r[i].spec_token()) is Some) && r.len() > 0 {
        let l = r.len() - 1;
        assert(item_matches(s, file_id, r[l], items[l]));
        assert(r[l].spec_token() is Some);
        assert(items.last().token is Some);
    }
}

/// Once the lexer yields an unrecoverable error it yields nothing more: the
/// item that carries it is the last of what remains.
pub proof fn lemma_nothing_after_fatal(l: Lexer)
    requires
        l.wf(),
        l.remaining().len() > 0,
        l.remaining()[0].token is None,
    ensures
        l.remaining().len() == 1,
{
    if !l.halted {
        lemma_run_shape(l.source@, l.pos as int, l.prev);
        assert(l.remaining()[0].token is None);
    }
}

} // verus!
