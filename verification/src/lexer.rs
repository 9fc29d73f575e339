//! Tokens and source positions.
//!
//! The parser consumes a sequence of tokens, each tagged with the half-open
//! byte range of the source text it came from. Tokenisation of raw text is
//! provided by [`tokenize`] as a convenience front-end; the parser itself
//! works on any token sequence.

use vstd::prelude::*;

use crate::messages::TokenError;

verus! {

/// A half-open byte range into the original source text.
#[derive(Debug, Clone, Copy, PartialEq, Eq, Structural)]
pub struct Span {
    pub start: usize,
    pub end: usize,
}

/// One lexical unit of the source language.
#[derive(Debug, PartialEq, Eq)]
pub enum Token {
    FnKeyword,
    TypeKeyword,
    MainKeyword,
    TestKeyword,
    BuildKeyword,
    PublicKeyword,
    ConstKeyword,
    AsyncKeyword,
    LetKeyword,
    MutKeyword,
    RefKeyword,
    Ident(String),
    StringLiteral(String),
    NumberLiteral(String),
    BraceOpen,
    BraceClose,
    ParenOpen,
    ParenClose,
    BracketOpen,
    BracketClose,
    Comma,
    Colon,
    Assign,
    Newline,
    QuestionMark,
    ExclamationMark,
    Ampersand,
    Arrow,
    Dot,
    /// Any other printable character, carried through so that balanced
    /// scanning can step over unparsed statement bodies.
    Symbol(u8),
}

/// The mathematical value of a token: the same shape, with text as a
/// character sequence.
pub enum TokenView {
    FnKeyword,
    TypeKeyword,
    MainKeyword,
    TestKeyword,
    BuildKeyword,
    PublicKeyword,
    ConstKeyword,
    AsyncKeyword,
    LetKeyword,
    MutKeyword,
    RefKeyword,
    Ident(Seq<char>),
    StringLiteral(Seq<char>),
    NumberLiteral(Seq<char>),
    BraceOpen,
    BraceClose,
    ParenOpen,
    ParenClose,
    BracketOpen,
    BracketClose,
    Comma,
    Colon,
    Assign,
    Newline,
    QuestionMark,
    ExclamationMark,
    Ampersand,
    Arrow,
    Dot,
    Symbol(u8),
}

impl View for Token {
    type V = TokenView;

    open spec fn view(&self) -> TokenView {
        match self {
            Token::FnKeyword => TokenView::FnKeyword,
            Token::TypeKeyword => TokenView::TypeKeyword,
            Token::MainKeyword => TokenView::MainKeyword,
            Token::TestKeyword => TokenView::TestKeyword,
            Token::BuildKeyword => TokenView::BuildKeyword,
            Token::PublicKeyword => TokenView::PublicKeyword,
            Token::ConstKeyword => TokenView::ConstKeyword,
            Token::AsyncKeyword => TokenView::AsyncKeyword,
            Token::LetKeyword => TokenView::LetKeyword,
            Token::MutKeyword => TokenView::MutKeyword,
            Token::RefKeyword => TokenView::RefKeyword,
            Token::Ident(s) => TokenView::Ident(s@),
            Token::StringLiteral(s) => TokenView::StringLiteral(s@),
            Token::NumberLiteral(s) => TokenView::NumberLiteral(s@),
            Token::BraceOpen => TokenView::BraceOpen,
            Token::BraceClose => TokenView::BraceClose,
            Token::ParenOpen => TokenView::ParenOpen,
            Token::ParenClose => TokenView::ParenClose,
            Token::BracketOpen => TokenView::BracketOpen,
            Token::BracketClose => TokenView::BracketClose,
            Token::Comma => TokenView::Comma,
            Token::Colon => TokenView::Colon,
            Token::Assign => TokenView::Assign,
            Token::Newline => TokenView::Newline,
            Token::QuestionMark => TokenView::QuestionMark,
            Token::ExclamationMark => TokenView::ExclamationMark,
            Token::Ampersand => TokenView::Ampersand,
            Token::Arrow => TokenView::Arrow,
            Token::Dot => TokenView::Dot,
            Token::Symbol(b) => TokenView::Symbol(*b),
        }
    }
}

/// A token together with the byte range it was read from.
#[derive(Debug, PartialEq, Eq)]
pub struct SpannedToken {
    pub token: Token,
    pub span: Span,
}

impl View for SpannedToken {
    type V = TokenView;

    open spec fn view(&self) -> TokenView {
        self.token@
    }
}

/// The token values of a spanned token sequence.
pub open spec fn token_views(tokens: Seq<SpannedToken>) -> Seq<TokenView> {
    tokens.map_values(|st: SpannedToken| st@)
}

/// Whether a byte may start an identifier.
pub open spec fn is_ident_start(b: u8) -> bool {
    (b >= 65 && b <= 90) || (b >= 97 && b <= 122) || b == 95
}

/// Whether a byte may continue an identifier.
pub open spec fn is_ident_byte(b: u8) -> bool {
    is_ident_start(b) || (b >= 48 && b <= 57)
}

fn byte_is_ident_start(b: u8) -> (r: bool)
    ensures
        r == is_ident_start(b),
{
    (b >= 65 && b <= 90) || (b >= 97 && b <= 122) || b == 95
}

fn byte_is_ident_byte(b: u8) -> (r: bool)
    ensures
        r == is_ident_byte(b),
{
    byte_is_ident_start(b) || (b >= 48 && b <= 57)
}

fn byte_is_digit(b: u8) -> (r: bool)
    ensures
        r == (b >= 48 && b <= 57),
{
    b >= 48 && b <= 57
}

/// Splits ASCII source text into position-tagged tokens. Spans are
/// half-open byte ranges into the text. Keywords are recognised among
/// identifier-shaped runs; whitespace other than line breaks is
/// dropped; a line break becomes its own token; any other printable
/// byte is carried through as a symbol so that balanced scanning can
/// step over unparsed statement bodies. Non-ASCII text and an
/// unterminated string literal are faults.
pub fn tokenize(s: &str) -> (r: Result<Vec<SpannedToken>, TokenError>)
    ensures
        match r {
            Ok(toks) => forall|i: int|
                0 <= i < toks@.len() ==> (#[trigger] toks@[i].span).start <= toks@[i].span.end,
            Err(_) => true,
        },
{
    if !s.is_ascii() {
        return Err(
            TokenError {
                msg: "Only ASCII source text is supported.".to_owned(),
                span: Span { start: 0, end: 0 },
                annotation: "a non-ASCII byte stands in this text".to_owned(),
            },
        );
    }
    let n = s.unicode_len();
    let mut tokens: Vec<SpannedToken> = Vec::new();
    let mut i: usize = 0;
    while i < n
        invariant
            s@.len() == n,
            s.is_ascii(),
            i <= n,
            forall|k: int|
                0 <= k < tokens@.len() ==> (#[trigger] tokens@[k].span).start
                    <= tokens@[k].span.end,
        decreases n - i,
    {
        let b = s.get_ascii(i);
        if b == 32 || b == 9 || b == 13 {
            i = i + 1;
        } else if b == 10 {
            tokens.push(
                SpannedToken { token: Token::Newline, span: Span { start: i, end: i + 1 } },
            );
            i = i + 1;
        } else if b == 123 {
            tokens.push(
                SpannedToken { token: Token::BraceOpen, span: Span { start: i, end: i + 1 } },
            );
            i = i + 1;
        } else if b == 125 {
            tokens.push(
                SpannedToken { token: Token::BraceClose, span: Span { start: i, end: i + 1 } },
            );
            i = i + 1;
        } else if b == 40 {
            tokens.push(
                SpannedToken { token: Token::ParenOpen, span: Span { start: i, end: i + 1 } },
            );
            i = i + 1;
        } else if b == 41 {
            tokens.push(
                SpannedToken { token: Token::ParenClose, span: Span { start: i, end: i + 1 } },
            );
            i = i + 1;
        } else if b == 91 {
            tokens.push(
                SpannedToken { token: Token::BracketOpen, span: Span { start: i, end: i + 1 } },
            );
            i = i + 1;
        } else if b == 93 {
            tokens.push(
                SpannedToken { token: Token::BracketClose, span: Span { start: i, end: i + 1 } },
            );
            i = i + 1;
        } else if b == 44 {
            tokens.push(
                SpannedToken { token: Token::Comma, span: Span { start: i, end: i + 1 } },
            );
            i = i + 1;
        } else if b == 58 {
            tokens.push(
                SpannedToken { token: Token::Colon, span: Span { start: i, end: i + 1 } },
            );
            i = i + 1;
        } else if b == 63 {
            tokens.push(
                SpannedToken { token: Token::QuestionMark, span: Span { start: i, end: i + 1 } },
            );
            i = i + 1;
        } else if b == 33 {
            tokens.push(
                SpannedToken {
                    token: Token::ExclamationMark,
                    span: Span { start: i, end: i + 1 },
                },
            );
            i = i + 1;
        } else if b == 38 {
            tokens.push(
                SpannedToken { token: Token::Ampersand, span: Span { start: i, end: i + 1 } },
            );
            i = i + 1;
        } else if b == 46 {
            tokens.push(SpannedToken { token: Token::Dot, span: Span { start: i, end: i + 1 } });
            i = i + 1;
        } else if b == 61 {
            tokens.push(
                SpannedToken { token: Token::Assign, span: Span { start: i, end: i + 1 } },
            );
            i = i + 1;
        } else if b == 45 {
            if i + 1 < n && s.get_ascii(i + 1) == 62 {
                tokens.push(
                    SpannedToken { token: Token::Arrow, span: Span { start: i, end: i + 2 } },
                );
                i = i + 2;
            } else {
                tokens.push(
                    SpannedToken { token: Token::Symbol(b), span: Span { start: i, end: i + 1 } },
                );
                i = i + 1;
            }
        } else if b == 34 {
            let start = i;
            let mut j = i + 1;
            while j < n && s.get_ascii(j) != 34
                invariant
                    s@.len() == n,
                    s.is_ascii(),
                    start < j <= n,
                decreases n - j,
            {
                j = j + 1;
            }
            if j >= n {
                return Err(
                    TokenError {
                        msg: "Unterminated string literal.".to_owned(),
                        span: Span { start, end: n },
                        annotation: "this string literal is never closed".to_owned(),
                    },
                );
            }
            let text = s.substring_ascii(start + 1, j).to_owned();
            tokens.push(
                SpannedToken {
                    token: Token::StringLiteral(text),
                    span: Span { start, end: j + 1 },
                },
            );
            i = j + 1;
        } else if byte_is_digit(b) {
            let start = i;
            let mut j = i + 1;
            while j < n && byte_is_digit(s.get_ascii(j))
                invariant
                    s@.len() == n,
                    s.is_ascii(),
                    start < j <= n,
                decreases n - j,
            {
                j = j + 1;
            }
            let text = s.substring_ascii(start, j).to_owned();
            tokens.push(
                SpannedToken { token: Token::NumberLiteral(text), span: Span { start, end: j } },
            );
            i = j;
        } else if byte_is_ident_start(b) {
            let start = i;
            let mut j = i + 1;
            while j < n && byte_is_ident_byte(s.get_ascii(j))
                invariant
                    s@.len() == n,
                    s.is_ascii(),
                    start < j <= n,
                decreases n - j,
            {
                j = j + 1;
            }
            let text = s.substring_ascii(start, j).to_owned();
            let token = keyword_or_ident(text);
            tokens.push(SpannedToken { token, span: Span { start, end: j } });
            i = j;
        } else {
            tokens.push(
                SpannedToken { token: Token::Symbol(b), span: Span { start: i, end: i + 1 } },
            );
            i = i + 1;
        }
    }
    Ok(tokens)
}

/// Maps an identifier-shaped run to its keyword token, or keeps it as
/// an identifier.
fn keyword_or_ident(text: String) -> (r: Token)
    ensures
        text@ == "fn"@ ==> r is FnKeyword,
        text@ == "type"@ ==> r is TypeKeyword,
        text@ == "main"@ ==> r is MainKeyword,
        text@ == "test"@ ==> r is TestKeyword,
        text@ == "build"@ ==> r is BuildKeyword,
        text@ == "pub"@ ==> r is PublicKeyword,
        text@ == "const"@ ==> r is ConstKeyword,
        text@ == "async"@ ==> r is AsyncKeyword,
        text@ == "let"@ ==> r is LetKeyword,
        text@ == "mut"@ ==> r is MutKeyword,
        text@ == "ref"@ ==> r is RefKeyword,
{
    proof {
        reveal_strlit("fn");
        reveal_strlit("type");
        reveal_strlit("main");
        reveal_strlit("test");
        reveal_strlit("build");
        reveal_strlit("pub");
        reveal_strlit("const");
        reveal_strlit("async");
        reveal_strlit("let");
        reveal_strlit("mut");
        reveal_strlit("ref");
        assert("fn"@.len() == 2);
        assert("type"@.len() == 4);
        assert("main"@.len() == 4);
        assert("test"@.len() == 4);
        assert("build"@.len() == 5);
        assert("pub"@.len() == 3);
        assert("const"@.len() == 5);
        assert("async"@.len() == 5);
        assert("let"@.len() == 3);
        assert("mut"@.len() == 3);
        assert("ref"@.len() == 3);
        assert("type"@[0] == 't' && "type"@[1] == 'y');
        assert("main"@[0] == 'm');
        assert("test"@[0] == 't' && "test"@[1] == 'e');
        assert("build"@[0] == 'b');
        assert("const"@[0] == 'c');
        assert("async"@[0] == 'a');
        assert("pub"@[0] == 'p');
        assert("let"@[0] == 'l');
        assert("mut"@[0] == 'm');
        assert("ref"@[0] == 'r');
    }
    if text == "fn".to_owned() {
        Token::FnKeyword
    } else if text == "type".to_owned() {
        Token::TypeKeyword
    } else if text == "main".to_owned() {
        Token::MainKeyword
    } else if text == "test".to_owned() {
        Token::TestKeyword
    } else if text == "build".to_owned() {
        Token::BuildKeyword
    } else if text == "pub".to_owned() {
        Token::PublicKeyword
    } else if text == "const".to_owned() {
        Token::ConstKeyword
    } else if text == "async".to_owned() {
        Token::AsyncKeyword
    } else if text == "let".to_owned() {
        Token::LetKeyword
    } else if text == "mut".to_owned() {
        Token::MutKeyword
    } else if text == "ref".to_owned() {
        Token::RefKeyword
    } else {
        Token::Ident(text)
    }
}

} // verus!
