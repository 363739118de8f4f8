//! Tokens: the lexer's output. A token is a kind together with the span of
//! the source text it was read from.

use vstd::prelude::*;
use crate::span::{span_id_at, spent_after, Span, SpanFactory};
use crate::error::{LangError, LangErrorV};

verus! {

/// The kind of a token.
#[derive(Debug, PartialEq, Eq)]
pub enum TokenType {
    // Single char Tokens
    LeftParen,  // (
    RightParen,  // )
    LeftBrace,  // {
    RightBrace,  // }
    LeftSquare,  // [
    RightSquare,  // ]
    Comma,  // ,
    Dot,  // .
    Minus,  // -
    Plus,  // +
    Slash,  // /
    Star,  // *
    Semicolon,  // ;
    // One or two char Tokens
    LessThan,  // <
    GreaterThan,  // >
    LessThanEq,  // <=
    GreaterThanEq,  // >=
    EqEq,  // ==
    Colon,  // :
    Assign,  // :=
    Bang,  // !
    BangEq,  // !=
    // Literals
    Identifier(String),
    Char(char),
    Number(u64),
    Bool(bool),
    // Keywords
    Let,
    If,
    For,
    While,
    Yield,
    // End of file
    EOF,
}

/// The mathematical value of a [`TokenType`].
pub ghost enum TokenTypeV {
    LeftParen,
    RightParen,
    LeftBrace,
    RightBrace,
    LeftSquare,
    RightSquare,
    Comma,
    Dot,
    Minus,
    Plus,
    Slash,
    Star,
    Semicolon,
    LessThan,
    GreaterThan,
    LessThanEq,
    GreaterThanEq,
    EqEq,
    Colon,
    Assign,
    Bang,
    BangEq,
    Identifier(Seq<char>),
    Char(char),
    Number(u64),
    Bool(bool),
    Let,
    If,
    For,
    While,
    Yield,
    EOF,
}

impl View for TokenType {
    type V = TokenTypeV;

    open spec fn view(&self) -> TokenTypeV {
        match self {
            TokenType::LeftParen => TokenTypeV::LeftParen,
            TokenType::RightParen => TokenTypeV::RightParen,
            TokenType::LeftBrace => TokenTypeV::LeftBrace,
            TokenType::RightBrace => TokenTypeV::RightBrace,
            TokenType::LeftSquare => TokenTypeV::LeftSquare,
            TokenType::RightSquare => TokenTypeV::RightSquare,
            TokenType::Comma => TokenTypeV::Comma,
            TokenType::Dot => TokenTypeV::Dot,
            TokenType::Minus => TokenTypeV::Minus,
            TokenType::Plus => TokenTypeV::Plus,
            TokenType::Slash => TokenTypeV::Slash,
            TokenType::Star => TokenTypeV::Star,
            TokenType::Semicolon => TokenTypeV::Semicolon,
            TokenType::LessThan => TokenTypeV::LessThan,
            TokenType::GreaterThan => TokenTypeV::GreaterThan,
            TokenType::LessThanEq => TokenTypeV::LessThanEq,
            TokenType::GreaterThanEq => TokenTypeV::GreaterThanEq,
            TokenType::EqEq => TokenTypeV::EqEq,
            TokenType::Colon => TokenTypeV::Colon,
            TokenType::Assign => TokenTypeV::Assign,
            TokenType::Bang => TokenTypeV::Bang,
            TokenType::BangEq => TokenTypeV::BangEq,
            TokenType::Identifier(s) => TokenTypeV::Identifier(s@),
            TokenType::Char(c) => TokenTypeV::Char(*c),
            TokenType::Number(n) => TokenTypeV::Number(*n),
            TokenType::Bool(b) => TokenTypeV::Bool(*b),
            TokenType::Let => TokenTypeV::Let,
            TokenType::If => TokenTypeV::If,
            TokenType::For => TokenTypeV::For,
            TokenType::While => TokenTypeV::While,
            TokenType::Yield => TokenTypeV::Yield,
            TokenType::EOF => TokenTypeV::EOF,
        }
    }
}

impl Clone for TokenType {
    fn clone(&self) -> (r: Self)
        ensures
            r@ == self@,
    {
        match self {
            TokenType::LeftParen => TokenType::LeftParen,
            TokenType::RightParen => TokenType::RightParen,
            TokenType::LeftBrace => TokenType::LeftBrace,
            TokenType::RightBrace => TokenType::RightBrace,
            TokenType::LeftSquare => TokenType::LeftSquare,
            TokenType::RightSquare => TokenType::RightSquare,
            TokenType::Comma => TokenType::Comma,
            TokenType::Dot => TokenType::Dot,
            TokenType::Minus => TokenType::Minus,
            TokenType::Plus => TokenType::Plus,
            TokenType::Slash => TokenType::Slash,
            TokenType::Star => TokenType::Star,
            TokenType::Semicolon => TokenType::Semicolon,
            TokenType::LessThan => TokenType::LessThan,
            TokenType::GreaterThan => TokenType::GreaterThan,
            TokenType::LessThanEq => TokenType::LessThanEq,
            TokenType::GreaterThanEq => TokenType::GreaterThanEq,
            TokenType::EqEq => TokenType::EqEq,
            TokenType::Colon => TokenType::Colon,
            TokenType::Assign => TokenType::Assign,
            TokenType::Bang => TokenType::Bang,
            TokenType::BangEq => TokenType::BangEq,
            TokenType::Identifier(s) => TokenType::Identifier(s.clone()),
            TokenType::Char(c) => TokenType::Char(*c),
            TokenType::Number(n) => TokenType::Number(*n),
            TokenType::Bool(b) => TokenType::Bool(*b),
            TokenType::Let => TokenType::Let,
            TokenType::If => TokenType::If,
            TokenType::For => TokenType::For,
            TokenType::While => TokenType::While,
            TokenType::Yield => TokenType::Yield,
            TokenType::EOF => TokenType::EOF,
        }
    }
}

/// Whether two string slices hold the same characters.
pub fn str_eqv(a: &str, b: &str) -> (r: bool)
    ensures
        r == (a@ == b@),
{
    let la = a.unicode_len();
    let lb = b.unicode_len();
    if la != lb {
        proof {
            assert(a@ != b@);
        }
        return false;
    }
    let mut i: usize = 0;
    while i < la
        invariant
            la == a@.len(),
            la == b@.len(),
            i <= la,
            forall|j: int| 0 <= j < i ==> a@[j] == b@[j],
        decreases la - i,
    {
        if a.get_char(i) != b.get_char(i) {
            proof {
                assert(a@[i as int] != b@[i as int]);
            }
            return false;
        }
        i = i + 1;
    }
    proof {
        assert(a@ =~= b@);
    }
    true
}

/// The number of decimal digits of `n`.
pub open spec fn spec_dec_len(n: u64) -> nat
    decreases n,
{
    if n < 10 {
        1
    } else {
        1 + spec_dec_len(n / 10)
    }
}

/// The size in characters a token kind occupies in the source code.
pub open spec fn spec_token_size(t: TokenTypeV) -> nat {
    match t {
        TokenTypeV::LessThanEq => 2,
        TokenTypeV::GreaterThanEq => 2,
        TokenTypeV::EqEq => 2,
        TokenTypeV::Assign => 2,
        TokenTypeV::BangEq => 2,
        TokenTypeV::Identifier(s) => s.len(),
        TokenTypeV::Char(_) => 3,
        TokenTypeV::Number(n) => spec_dec_len(n),
        TokenTypeV::Bool(b) => if b {
            4
        } else {
            5
        },
        TokenTypeV::Let => 3,
        TokenTypeV::If => 2,
        TokenTypeV::For => 3,
        TokenTypeV::While => 5,
        TokenTypeV::Yield => 5,
        TokenTypeV::EOF => 0,
        _ => 1,
    }
}

impl TokenType {
    /// The size the token would occupy in the source code, in characters.
    pub fn size(&self) -> (r: usize)
        requires
            spec_token_size(self@) <= usize::MAX,
        ensures
            r == spec_token_size(self@),
    {
        match self {
            TokenType::LessThanEq => 2,
            TokenType::GreaterThanEq => 2,
            TokenType::EqEq => 2,
            TokenType::Assign => 2,
            TokenType::BangEq => 2,
            TokenType::Identifier(s) => s.as_str().unicode_len(),
            TokenType::Char(_) => 3,
            TokenType::Number(n) => {
                let mut count: usize = 1;
                let mut rest: u64 = *n;
                proof {
                    assert(spec_token_size(self@) == spec_dec_len(*n));
                }
                while rest >= 10
                    invariant
                        1 <= count,
                        count + spec_dec_len(rest) == 1 + spec_dec_len(*n),
                        spec_dec_len(*n) <= usize::MAX,
                    decreases rest,
                {
                    proof {
                        assert(spec_dec_len(rest) == 1 + spec_dec_len(rest / 10));
                        assert(spec_dec_len(rest / 10) >= 1);
                    }
                    rest = rest / 10;
                    count = count + 1;
                }
                proof {
                    assert(spec_dec_len(rest) == 1);
                }
                count
            },
            TokenType::Bool(b) => if *b {
                4
            } else {
                5
            },
            TokenType::Let => 3,
            TokenType::If => 2,
            TokenType::For => 3,
            TokenType::While => 5,
            TokenType::Yield => 5,
            TokenType::EOF => 0,
            _ => 1,
        }
    }
}

/// A token: a kind tagged with the span it was read from.
#[derive(Debug)]
pub struct Token {
    pub token_type: TokenType,
    pub span: Span,
}

/// The mathematical value of a [`Token`].
pub ghost struct TokenV {
    pub kind: TokenTypeV,
    pub span: Span,
}

impl View for Token {
    type V = TokenV;

    open spec fn view(&self) -> TokenV {
        TokenV { kind: self.token_type@, span: self.span }
    }
}

impl Clone for Token {
    fn clone(&self) -> (r: Self)
        ensures
            r@ == self@,
    {
        Token { token_type: self.token_type.clone(), span: self.span }
    }
}

/// The kind a one- or two-character lexeme stands for, if it is one of the
/// language's punctuation or operator lexemes.
pub open spec fn spec_punct_kind(s: Seq<char>) -> Option<TokenTypeV> {
    if s == "("@ {
        Some(TokenTypeV::LeftParen)
    } else if s == ")"@ {
        Some(TokenTypeV::RightParen)
    } else if s == "{"@ {
        Some(TokenTypeV::LeftBrace)
    } else if s == "}"@ {
        Some(TokenTypeV::RightBrace)
    } else if s == "["@ {
        Some(TokenTypeV::LeftSquare)
    } else if s == "]"@ {
        Some(TokenTypeV::RightSquare)
    } else if s == ","@ {
        Some(TokenTypeV::Comma)
    } else if s == "."@ {
        Some(TokenTypeV::Dot)
    } else if s == "-"@ {
        Some(TokenTypeV::Minus)
    } else if s == "+"@ {
        Some(TokenTypeV::Plus)
    } else if s == "*"@ {
        Some(TokenTypeV::Star)
    } else if s == ";"@ {
        Some(TokenTypeV::Semicolon)
    } else if s == "!"@ {
        Some(TokenTypeV::Bang)
    } else if s == "<"@ {
        Some(TokenTypeV::LessThan)
    } else if s == ">"@ {
        Some(TokenTypeV::GreaterThan)
    } else if s == ":"@ {
        Some(TokenTypeV::Colon)
    } else if s == "!="@ {
        Some(TokenTypeV::BangEq)
    } else if s == "=="@ {
        Some(TokenTypeV::EqEq)
    } else if s == "<="@ {
        Some(TokenTypeV::LessThanEq)
    } else if s == ">="@ {
        Some(TokenTypeV::GreaterThanEq)
    } else if s == ":="@ {
        Some(TokenTypeV::Assign)
    } else if s == "/"@ {
        Some(TokenTypeV::Slash)
    } else {
        None
    }
}

/// The kind a keyword lexeme stands for, if the lexeme is one of the
/// language's keywords; `true` and `false` stand for boolean literals.
pub open spec fn spec_keyword_kind(s: Seq<char>) -> Option<TokenTypeV> {
    if s == "true"@ {
        Some(TokenTypeV::Bool(true))
    } else if s == "false"@ {
        Some(TokenTypeV::Bool(false))
    } else if s == "if"@ {
        Some(TokenTypeV::If)
    } else if s == "let"@ {
        Some(TokenTypeV::Let)
    } else if s == "for"@ {
        Some(TokenTypeV::For)
    } else if s == "while"@ {
        Some(TokenTypeV::While)
    } else if s == "yield"@ {
        Some(TokenTypeV::Yield)
    } else {
        None
    }
}

impl Token {
    /// A token of the given kind whose span covers `length` characters from
    /// `start`.
    pub fn new(token_type: TokenType, start: usize, length: usize, f: &mut SpanFactory) -> (r:
        Token)
        requires
            start + length <= usize::MAX,
        ensures
            r@.kind == token_type@,
            r@.span.span == (start, (start + length) as usize),
            r@.span.id == span_id_at(old(f).spent()),
            final(f).spent() == spent_after(old(f).spent()),
    {
        let span = f.fresh(start, start + length);
        Token { token_type, span }
    }

    pub fn token_type(&self) -> (r: &TokenType)
        ensures
            r@ == self@.kind,
    {
        &self.token_type
    }

    pub fn ty(&self) -> (r: TokenType)
        ensures
            r@ == self@.kind,
    {
        self.token_type.clone()
    }

    pub fn span(&self) -> (r: Span)
        ensures
            r == self@.span,
    {
        self.span
    }

    /// The token a punctuation or operator lexeme stands for, spanning from
    /// `start`; any other lexeme is invalid.
    pub fn from(string: &str, start: usize, f: &mut SpanFactory) -> (r: Result<Token, LangError>)
        requires
            start + string@.len() <= usize::MAX,
        ensures
            final(f).spent() == spent_after(old(f).spent()),
            match spec_punct_kind(string@) {
                Some(kind) => r matches Ok(t) && t@.kind == kind && t@.span.span == (
                    start,
                    (start + string@.len()) as usize,
                ) && t@.span.id == span_id_at(old(f).spent()),
                None => r matches Err(e) && e@ == (LangErrorV::InvalidLexeme {
                    span: Span {
                        id: span_id_at(old(f).spent()),
                        span: (start, (start + string@.len()) as usize),
                    },
                    lexeme: string@,
                }),
            },
    {
        let ty = if str_eqv(string, "(") {
            TokenType::LeftParen
        } else if str_eqv(string, ")") {
            TokenType::RightParen
        } else if str_eqv(string, "{") {
            TokenType::LeftBrace
        } else if str_eqv(string, "}") {
            TokenType::RightBrace
        } else if str_eqv(string, "[") {
            TokenType::LeftSquare
        } else if str_eqv(string, "]") {
            TokenType::RightSquare
        } else if str_eqv(string, ",") {
            TokenType::Comma
        } else if str_eqv(string, ".") {
            TokenType::Dot
        } else if str_eqv(string, "-") {
            TokenType::Minus
        } else if str_eqv(string, "+") {
            TokenType::Plus
        } else if str_eqv(string, "*") {
            TokenType::Star
        } else if str_eqv(string, ";") {
            TokenType::Semicolon
        } else if str_eqv(string, "!") {
            TokenType::Bang
        } else if str_eqv(string, "<") {
            TokenType::LessThan
        } else if str_eqv(string, ">") {
            TokenType::GreaterThan
        } else if str_eqv(string, ":") {
            TokenType::Colon
        } else if str_eqv(string, "!=") {
            TokenType::BangEq
        } else if str_eqv(string, "==") {
            TokenType::EqEq
        } else if str_eqv(string, "<=") {
            TokenType::LessThanEq
        } else if str_eqv(string, ">=") {
            TokenType::GreaterThanEq
        } else if str_eqv(string, ":=") {
            TokenType::Assign
        } else if str_eqv(string, "/") {
            TokenType::Slash
        } else {
            let len = string.unicode_len();
            return Err(
                LangError::InvalidLexeme {
                    span: f.fresh(start, start + len),
                    lexeme: string.to_owned(),
                },
            );
        };
        let len = string.unicode_len();
        Ok(Token { token_type: ty, span: f.fresh(start, start + len) })
    }

    /// A boolean literal token, whose span covers the keyword that wrote it.
    pub fn from_bool(b: bool, start: usize, f: &mut SpanFactory) -> (r: Token)
        requires
            start + 5 <= usize::MAX,
        ensures
            r@.kind == TokenTypeV::Bool(b),
            r@.span.span == (start, (start + if b {
                4int
            } else {
                5int
            }) as usize),
            r@.span.id == span_id_at(old(f).spent()),
            final(f).spent() == spent_after(old(f).spent()),
    {
        let len: usize = if b {
            4
        } else {
            5
        };
        Token { token_type: TokenType::Bool(b), span: f.fresh(start, start + len) }
    }

    /// A number literal token over the source range `[start, stop)`.
    pub fn from_num(n: u64, start: usize, stop: usize, f: &mut SpanFactory) -> (r: Token)
        requires
            start <= stop,
        ensures
            r@.kind == TokenTypeV::Number(n),
            r@.span.span == (start, stop),
            r@.span.id == span_id_at(old(f).spent()),
            final(f).spent() == spent_after(old(f).spent()),
    {
        Token { token_type: TokenType::Number(n), span: f.fresh(start, stop) }
    }

    /// The token a keyword lexeme stands for, spanning from `start`.
    pub fn from_keyword(string: &str, start: usize, f: &mut SpanFactory) -> (r: Result<
        Token,
        LangError,
    >)
        requires
            spec_keyword_kind(string@) is Some,
            start + 5 <= usize::MAX,
        ensures
            r matches Ok(t) && t@.kind == spec_keyword_kind(string@).unwrap() && t@.span.span == (
                start,
                (start + string@.len()) as usize,
            ) && t@.span.id == span_id_at(old(f).spent()),
            final(f).spent() == spent_after(old(f).spent()),
    {
        proof {
            reveal_strlit("true");
            reveal_strlit("false");
            reveal_strlit("if");
            reveal_strlit("let");
            reveal_strlit("for");
            reveal_strlit("while");
            reveal_strlit("yield");
        }
        if str_eqv(string, "true") {
            return Ok(Token::from_bool(true, start, f));
        }
        if str_eqv(string, "false") {
            return Ok(Token::from_bool(false, start, f));
        }
        let ty = if str_eqv(string, "if") {
            TokenType::If
        } else if str_eqv(string, "let") {
            TokenType::Let
        } else if str_eqv(string, "for") {
            TokenType::For
        } else if str_eqv(string, "while") {
            TokenType::While
        } else {
            TokenType::Yield
        };
        let len = string.unicode_len();
        Ok(Token { token_type: ty, span: f.fresh(start, start + len) })
    }
}

} // verus!
