//! The lexer: a single-pass, cursor-based scanner from source text to a
//! span-tagged token stream terminated by one end-of-input token.
//!
//! [`spec_lex_from`] is the mathematical tokenizer; [`Lexer::run`] returns
//! exactly its result.

use vstd::prelude::*;
use crate::span::{span_id_at, spent_after, Span, SpanFactory};
use crate::token::{spec_keyword_kind, str_eqv, Token, TokenType, TokenTypeV, TokenV};
use crate::error::{LangError, LangErrorV};

verus! {

/// Whitespace: the trivia the lexer skips between tokens.
pub open spec fn is_ws_char(c: char) -> bool {
    c == ' ' || c == '\t' || c == '\n' || c == '\r'
}

pub open spec fn is_digit_char(c: char) -> bool {
    48 <= c as u32 <= 57
}

pub open spec fn is_letter_char(c: char) -> bool {
    (65 <= c as u32 <= 90) || (97 <= c as u32 <= 122)
}

/// A valid non-starting identifier character: a letter, a digit or an
/// underscore.
pub open spec fn is_ident_char(c: char) -> bool {
    is_letter_char(c) || is_digit_char(c) || c == '_'
}

fn ws_char(c: char) -> (r: bool)
    ensures
        r == is_ws_char(c),
{
    c == ' ' || c == '\t' || c == '\n' || c == '\r'
}

fn digit_char(c: char) -> (r: bool)
    ensures
        r == is_digit_char(c),
{
    let u = c as u32;
    48 <= u && u <= 57
}

fn letter_char(c: char) -> (r: bool)
    ensures
        r == is_letter_char(c),
{
    let u = c as u32;
    (65 <= u && u <= 90) || (97 <= u && u <= 122)
}

/// Returns whether a given character is a valid non-starting identifier
/// character.
pub fn ident_char(c: char) -> (r: bool)
    ensures
        r == is_ident_char(c),
{
    letter_char(c) || digit_char(c) || c == '_'
}

/// The value of an escape character inside a character literal, if it is a
/// valid one.
pub open spec fn spec_escape_val(c: char) -> Option<char> {
    if c == 'n' {
        Some('\n')
    } else if c == 't' {
        Some('\t')
    } else if c == 'r' {
        Some('\r')
    } else if c == '0' {
        Some('\0')
    } else if c == '\\' {
        Some('\\')
    } else if c == '\'' {
        Some('\'')
    } else if c == '"' {
        Some('"')
    } else {
        None
    }
}

fn escape_val(c: char) -> (r: Option<char>)
    ensures
        r == spec_escape_val(c),
{
    if c == 'n' {
        Some('\n')
    } else if c == 't' {
        Some('\t')
    } else if c == 'r' {
        Some('\r')
    } else if c == '0' {
        Some('\0')
    } else if c == '\\' {
        Some('\\')
    } else if c == '\'' {
        Some('\'')
    } else if c == '"' {
        Some('"')
    } else {
        None
    }
}

/// The index just past the run of decimal digits starting at `i`.
pub open spec fn digits_end(src: Seq<char>, i: int) -> int
    decreases src.len() - i,
{
    if i < 0 || i >= src.len() || !is_digit_char(src[i]) {
        i
    } else {
        digits_end(src, i + 1)
    }
}

/// The index just past the run of identifier characters starting at `i`.
pub open spec fn ident_end(src: Seq<char>, i: int) -> int
    decreases src.len() - i,
{
    if i < 0 || i >= src.len() || !is_ident_char(src[i]) {
        i
    } else {
        ident_end(src, i + 1)
    }
}

/// The numeric value of a run of decimal digits.
pub open spec fn dec_val(s: Seq<char>) -> int
    decreases s.len(),
{
    if s.len() == 0 {
        0
    } else {
        dec_val(s.drop_last()) * 10 + (s.last() as u32) - 48
    }
}

/// The kind a single punctuation character stands for, for the characters the
/// lexer emits directly.
pub open spec fn single_char_kind(c: char) -> Option<TokenTypeV> {
    if c == '(' {
        Some(TokenTypeV::LeftParen)
    } else if c == ')' {
        Some(TokenTypeV::RightParen)
    } else if c == '{' {
        Some(TokenTypeV::LeftBrace)
    } else if c == '}' {
        Some(TokenTypeV::RightBrace)
    } else if c == '[' {
        Some(TokenTypeV::LeftSquare)
    } else if c == ']' {
        Some(TokenTypeV::RightSquare)
    } else if c == ',' {
        Some(TokenTypeV::Comma)
    } else if c == '.' {
        Some(TokenTypeV::Dot)
    } else if c == '-' {
        Some(TokenTypeV::Minus)
    } else if c == '+' {
        Some(TokenTypeV::Plus)
    } else if c == '*' {
        Some(TokenTypeV::Star)
    } else if c == ';' {
        Some(TokenTypeV::Semicolon)
    } else if c == '/' {
        Some(TokenTypeV::Slash)
    } else {
        None
    }
}

/// The one-character kind of a character from the maybe-two-character set
/// `! < > : =`; `=` alone is not a lexeme of the language.
pub open spec fn lone_char_kind(c: char) -> Option<TokenTypeV> {
    if c == '!' {
        Some(TokenTypeV::Bang)
    } else if c == '<' {
        Some(TokenTypeV::LessThan)
    } else if c == '>' {
        Some(TokenTypeV::GreaterThan)
    } else if c == ':' {
        Some(TokenTypeV::Colon)
    } else {
        None
    }
}

/// The two-character kind of a character from the set `! < > : =` followed by
/// `=`.
pub open spec fn eq_pair_kind(c: char) -> TokenTypeV {
    if c == '!' {
        TokenTypeV::BangEq
    } else if c == '<' {
        TokenTypeV::LessThanEq
    } else if c == '>' {
        TokenTypeV::GreaterThanEq
    } else if c == ':' {
        TokenTypeV::Assign
    } else {
        TokenTypeV::EqEq
    }
}

/// A freshly numbered span over `[lo, hi)`.
pub open spec fn span_at(lo: int, hi: int, spent: nat) -> Span {
    Span { id: span_id_at(spent), span: (lo as usize, hi as usize) }
}

/// One token scanned at position `i`, which must hold a non-whitespace
/// character: the token's value and the position just past it, or the error
/// the text at `i` deserves. `spent` numbers the span drawn here.
pub open spec fn spec_scan_token(src: Seq<char>, i: int, spent: nat) -> Result<
    (TokenV, int),
    LangErrorV,
> {
    let c = src[i];
    if single_char_kind(c) is Some {
        Ok((TokenV { kind: single_char_kind(c).unwrap(), span: span_at(i, i + 1, spent) }, i + 1))
    } else if c == '!' || c == '<' || c == '>' || c == ':' || c == '=' {
        if i + 1 < src.len() && src[i + 1] == '=' {
            Ok((TokenV { kind: eq_pair_kind(c), span: span_at(i, i + 2, spent) }, i + 2))
        } else {
            match lone_char_kind(c) {
                Some(kind) => Ok((TokenV { kind, span: span_at(i, i + 1, spent) }, i + 1)),
                None => Err(
                    LangErrorV::InvalidLexeme {
                        span: span_at(i, i + 1, spent),
                        lexeme: src.subrange(i, i + 1),
                    },
                ),
            }
        }
    } else if c == '\'' {
        spec_scan_char_literal(src, i, spent)
    } else if is_digit_char(c) {
        let end = digits_end(src, i + 1);
        if dec_val(src.subrange(i, end)) > u64::MAX {
            Err(
                LangErrorV::InvalidIntegerLiteral {
                    span: span_at(i, end, spent),
                    num_literal: src.subrange(i, end),
                },
            )
        } else {
            Ok(
                (
                    TokenV {
                        kind: TokenTypeV::Number(dec_val(src.subrange(i, end)) as u64),
                        span: span_at(i, end, spent),
                    },
                    end,
                ),
            )
        }
    } else if is_letter_char(c) {
        let end = ident_end(src, i + 1);
        let name = src.subrange(i, end);
        match spec_keyword_kind(name) {
            Some(kind) => Ok((TokenV { kind, span: span_at(i, end, spent) }, end)),
            None => Ok(
                (TokenV { kind: TokenTypeV::Identifier(name), span: span_at(i, end, spent) }, end),
            ),
        }
    } else {
        Err(
            LangErrorV::InvalidLexeme {
                span: span_at(i, i + 1, spent),
                lexeme: src.subrange(i, i + 1),
            },
        )
    }
}

/// A character literal scanned at position `i`, which must hold the opening
/// quote: the inner character is either plain or one of the escapes
/// `\n \t \r \0 \\ \' \"`, and the closing quote must follow it.
pub open spec fn spec_scan_char_literal(src: Seq<char>, i: int, spent: nat) -> Result<
    (TokenV, int),
    LangErrorV,
> {
    let n = src.len() as int;
    if i + 1 >= n {
        Err(char_lit_err(src, i, n, spent))
    } else if src[i + 1] == '\\' {
        if i + 2 >= n {
            Err(char_lit_err(src, i, n, spent))
        } else {
            match spec_escape_val(src[i + 2]) {
                None => Err(char_lit_err(src, i, i + 3, spent)),
                Some(v) => if i + 3 < n && src[i + 3] == '\'' {
                    Ok((TokenV { kind: TokenTypeV::Char(v), span: span_at(i, i + 4, spent) }, i + 4))
                } else {
                    Err(char_lit_err(src, i, if i + 4 < n { i + 4 } else { n }, spent))
                },
            }
        }
    } else if src[i + 1] == '\'' {
        Err(char_lit_err(src, i, i + 2, spent))
    } else {
        if i + 2 < n && src[i + 2] == '\'' {
            Ok((TokenV { kind: TokenTypeV::Char(src[i + 1]), span: span_at(i, i + 3, spent) }, i + 3))
        } else {
            Err(char_lit_err(src, i, if i + 3 < n { i + 3 } else { n }, spent))
        }
    }
}

/// The error an unfinished or malformed character literal deserves: the span
/// and text of the attempted literal.
pub open spec fn char_lit_err(src: Seq<char>, lo: int, hi: int, spent: nat) -> LangErrorV {
    LangErrorV::InvalidCharacterLiteral {
        span: span_at(lo, hi, spent),
        char_literal: src.subrange(lo, hi),
    }
}

/// The token stream of the source from position `i` on: whitespace is
/// skipped, every other character starts a token, and the stream ends with a
/// single end-of-input token. The first error stops lexing. `spent` numbers
/// the spans drawn from the factory.
pub open spec fn spec_lex_from(src: Seq<char>, i: int, spent: nat) -> Result<
    Seq<TokenV>,
    LangErrorV,
>
    decreases src.len() - i,
{
    if i >= src.len() {
        Ok(seq![TokenV { kind: TokenTypeV::EOF, span: span_at(i, i, spent) }])
    } else if is_ws_char(src[i]) {
        spec_lex_from(src, i + 1, spent)
    } else {
        match spec_scan_token(src, i, spent) {
            Err(e) => Err(e),
            Ok((tok, next)) => if i < next <= src.len() {
                match spec_lex_from(src, next, spent_after(spent)) {
                    Ok(rest) => Ok(seq![tok] + rest),
                    Err(e) => Err(e),
                }
            } else {
                Err(arbitrary())
            },
        }
    }
}

/// The views of a sequence of tokens.
pub open spec fn token_views(s: Seq<Token>) -> Seq<TokenV> {
    s.map_values(|t: Token| t@)
}

/// Appending digits to a run of digits never shrinks its value.
proof fn lemma_dec_val_nonneg(s: Seq<char>)
    requires
        forall|j: int| 0 <= j < s.len() ==> is_digit_char(#[trigger] s[j]),
    ensures
        dec_val(s) >= 0,
    decreases s.len(),
{
    if s.len() > 0 {
        lemma_dec_val_nonneg(s.drop_last());
    }
}

proof fn lemma_dec_val_prefix(s: Seq<char>, k: int)
    requires
        0 <= k <= s.len(),
        forall|j: int| 0 <= j < s.len() ==> is_digit_char(#[trigger] s[j]),
    ensures
        dec_val(s.subrange(0, k)) <= dec_val(s),
    decreases s.len() - k,
{
    if k == s.len() {
        assert(s.subrange(0, k) =~= s);
    } else {
        lemma_dec_val_prefix(s, k + 1);
        let a = s.subrange(0, k);
        let b = s.subrange(0, k + 1);
        assert(b.drop_last() =~= a);
        assert(b.last() == s[k]);
        assert(forall|j: int| 0 <= j < a.len() ==> is_digit_char(#[trigger] a[j]));
        lemma_dec_val_nonneg(a);
        assert(dec_val(b) == dec_val(a) * 10 + (s[k] as u32) - 48);
        assert(dec_val(a) * 10 >= dec_val(a));
    }
}

/// The run of digits reaches no further than the end of the source, and
/// every character in it is a digit.
proof fn lemma_digits_end(src: Seq<char>, i: int)
    requires
        0 <= i <= src.len(),
    ensures
        i <= digits_end(src, i) <= src.len(),
        forall|k: int| i <= k < digits_end(src, i) ==> is_digit_char(#[trigger] src[k]),
    decreases src.len() - i,
{
    if i < src.len() && is_digit_char(src[i]) {
        lemma_digits_end(src, i + 1);
    }
}

/// A streaming tokenizer over a character cursor.
pub struct Lexer<'l> {
    pub src: &'l str,
    pub index: usize,
}

impl<'l> Lexer<'l> {
    pub fn new(src: &'l str) -> (r: Lexer<'l>)
        ensures
            r.src@ == src@,
            r.index == 0,
    {
        Lexer { src, index: 0 }
    }

    /// Scan one token at the cursor, which must stand on a non-whitespace
    /// character; exactly one span is drawn from the factory.
    #[verifier::loop_isolation(false)]
    fn scan_token(&mut self, f: &mut SpanFactory, n: usize) -> (r: Result<Token, LangError>)
        requires
            n == old(self).src@.len(),
            old(self).index < n,
            !is_ws_char(old(self).src@[old(self).index as int]),
        ensures
            final(self).src == old(self).src,
            final(f).spent() == spent_after(old(f).spent()),
            match spec_scan_token(old(self).src@, old(self).index as int, old(f).spent()) {
                Ok(pair) => r matches Ok(t) && t@ == pair.0 && final(self).index == pair.1
                    && old(self).index < final(self).index <= n,
                Err(e) => r matches Err(er) && er@ == e,
            },
    {
        let ghost src0 = self.src@;
        let ghost spent0 = f.spent();
        let i = self.index;
        let c = self.src.get_char(i);
        match single_char_token_type(c) {
            Some(ty) => {
                self.index = i + 1;
                return Ok(Token::new(ty, i, 1, f));
            },
            None => {},
        }
        if c == '!' || c == '<' || c == '>' || c == ':' || c == '=' {
            if i + 1 < n && self.src.get_char(i + 1) == '=' {
                let ty = if c == '!' {
                    TokenType::BangEq
                } else if c == '<' {
                    TokenType::LessThanEq
                } else if c == '>' {
                    TokenType::GreaterThanEq
                } else if c == ':' {
                    TokenType::Assign
                } else {
                    TokenType::EqEq
                };
                self.index = i + 2;
                return Ok(Token::new(ty, i, 2, f));
            }
            let ty = if c == '!' {
                Some(TokenType::Bang)
            } else if c == '<' {
                Some(TokenType::LessThan)
            } else if c == '>' {
                Some(TokenType::GreaterThan)
            } else if c == ':' {
                Some(TokenType::Colon)
            } else {
                None
            };
            match ty {
                Some(ty) => {
                    self.index = i + 1;
                    return Ok(Token::new(ty, i, 1, f));
                },
                None => {
                    return Err(
                        LangError::InvalidLexeme {
                            span: f.fresh(i, i + 1),
                            lexeme: self.src.substring_char(i, i + 1).to_owned(),
                        },
                    );
                },
            }
        }
        if c == '\'' {
            return self.scan_char_literal(f, n);
        }
        if digit_char(c) {
            return self.scan_number(f, n);
        }
        if letter_char(c) {
            return self.scan_identifier(f, n);
        }
        Err(
            LangError::InvalidLexeme {
                span: f.fresh(i, i + 1),
                lexeme: self.src.substring_char(i, i + 1).to_owned(),
            },
        )
    }

    /// Scan a character literal at the cursor, which must stand on the
    /// opening quote.
    #[verifier::loop_isolation(false)]
    fn scan_char_literal(&mut self, f: &mut SpanFactory, n: usize) -> (r: Result<Token, LangError>)
        requires
            n == old(self).src@.len(),
            old(self).index < n,
            old(self).src@[old(self).index as int] == '\'',
        ensures
            final(self).src == old(self).src,
            final(f).spent() == spent_after(old(f).spent()),
            match spec_scan_char_literal(old(self).src@, old(self).index as int, old(f).spent()) {
                Ok(pair) => r matches Ok(t) && t@ == pair.0 && final(self).index == pair.1
                    && old(self).index < final(self).index <= n,
                Err(e) => r matches Err(er) && er@ == e,
            },
    {
        let i = self.index;
        if i + 1 >= n {
            return Err(self.char_lit_error(f, i, n));
        }
        let c1 = self.src.get_char(i + 1);
        if c1 == '\\' {
            if i + 2 >= n {
                return Err(self.char_lit_error(f, i, n));
            }
            let c2 = self.src.get_char(i + 2);
            match escape_val(c2) {
                None => Err(self.char_lit_error(f, i, i + 3)),
                Some(v) => {
                    if i + 3 < n && self.src.get_char(i + 3) == '\'' {
                        self.index = i + 4;
                        Ok(Token::new(TokenType::Char(v), i, 4, f))
                    } else {
                        let hi = if n - i > 4 {
                            i + 4
                        } else {
                            n
                        };
                        Err(self.char_lit_error(f, i, hi))
                    }
                },
            }
        } else if c1 == '\'' {
            Err(self.char_lit_error(f, i, i + 2))
        } else {
            if i + 2 < n && self.src.get_char(i + 2) == '\'' {
                self.index = i + 3;
                Ok(Token::new(TokenType::Char(c1), i, 3, f))
            } else {
                let hi = if n - i > 3 {
                    i + 3
                } else {
                    n
                };
                Err(self.char_lit_error(f, i, hi))
            }
        }
    }

    /// The error a malformed character literal deserves.
    fn char_lit_error(&self, f: &mut SpanFactory, lo: usize, hi: usize) -> (r: LangError)
        requires
            lo <= hi <= self.src@.len(),
        ensures
            final(f).spent() == spent_after(old(f).spent()),
            r@ == char_lit_err(self.src@, lo as int, hi as int, old(f).spent()),
    {
        LangError::InvalidCharacterLiteral {
            span: f.fresh(lo, hi),
            char_literal: self.src.substring_char(lo, hi).to_owned(),
        }
    }

    /// Scan an unsigned decimal integer literal at the cursor, which must
    /// stand on a digit.
    #[verifier::loop_isolation(false)]
    fn scan_number(&mut self, f: &mut SpanFactory, n: usize) -> (r: Result<Token, LangError>)
        requires
            n == old(self).src@.len(),
            old(self).index < n,
            is_digit_char(old(self).src@[old(self).index as int]),
        ensures
            final(self).src == old(self).src,
            final(f).spent() == spent_after(old(f).spent()),
            match spec_scan_token(old(self).src@, old(self).index as int, old(f).spent()) {
                Ok(pair) => r matches Ok(t) && t@ == pair.0 && final(self).index == pair.1
                    && old(self).index < final(self).index <= n,
                Err(e) => r matches Err(er) && er@ == e,
            },
    {
        let ghost src0 = self.src@;
        let ghost spent0 = f.spent();
        let start = self.index;
        let mut j = start + 1;
        let mut scanning = true;
        while scanning
            invariant
                start < j <= n,
                digits_end(src0, start as int + 1) == digits_end(src0, j as int),
                !scanning ==> j == digits_end(src0, start as int + 1),
            decreases n - j, if scanning {
                1int
            } else {
                0int
            },
        {
            if j >= n {
                scanning = false;
            } else {
                let d = self.src.get_char(j);
                if digit_char(d) {
                    proof {
                        assert(digits_end(src0, j as int) == digits_end(src0, j as int + 1));
                    }
                    j = j + 1;
                } else {
                    scanning = false;
                }
            }
            proof {
                if !scanning {
                    assert(digits_end(src0, j as int) == j);
                }
            }
        }
        let ghost end = digits_end(src0, start as int + 1);
        let ghost run = src0.subrange(start as int, end);
        proof {
            assert(end == j);
            lemma_digits_end(src0, start as int + 1);
            assert(forall|k: int| 0 <= k < run.len() ==> is_digit_char(#[trigger] run[k]));
        }
        // accumulate the value, stopping on 64-bit overflow
        let mut val: u64 = 0;
        let mut k = start;
        while k < j
            invariant
                start <= k <= j,
                f.spent() == old(f).spent(),
                val == dec_val(run.subrange(0, k - start)),
            decreases j - k,
        {
            let c = self.src.get_char(k);
            let d: u64 = (c as u32) as u64;
            proof {
                assert(run[k - start] == src0[k as int]);
                assert(is_digit_char(src0[k as int]));
                assert(run.subrange(0, k - start + 1).drop_last() =~= run.subrange(0, k - start));
                assert(run.subrange(0, k - start + 1).last() == run[k - start]);
            }
            let acc = match val.checked_mul(10) {
                Some(a) => match a.checked_add(d - 48) {
                    Some(b) => Some(b),
                    None => None,
                },
                None => None,
            };
            match acc {
                Some(v) => {
                    val = v;
                    k = k + 1;
                },
                None => {
                    proof {
                        assert(dec_val(run.subrange(0, k - start + 1)) > u64::MAX);
                        lemma_dec_val_prefix(run, k - start + 1);
                    }
                    return Err(
                        LangError::InvalidIntegerLiteral {
                            span: f.fresh(start, j),
                            num_literal: self.src.substring_char(start, j).to_owned(),
                        },
                    );
                },
            }
        }
        proof {
            assert(run.subrange(0, j - start) =~= run);
        }
        self.index = j;
        Ok(Token::from_num(val, start, j, f))
    }

    /// Scan an identifier or keyword at the cursor, which must stand on a
    /// letter.
    #[verifier::loop_isolation(false)]
    fn scan_identifier(&mut self, f: &mut SpanFactory, n: usize) -> (r: Result<Token, LangError>)
        requires
            n == old(self).src@.len(),
            old(self).index < n,
            is_letter_char(old(self).src@[old(self).index as int]),
        ensures
            final(self).src == old(self).src,
            final(f).spent() == spent_after(old(f).spent()),
            match spec_scan_token(old(self).src@, old(self).index as int, old(f).spent()) {
                Ok(pair) => r matches Ok(t) && t@ == pair.0 && final(self).index == pair.1
                    && old(self).index < final(self).index <= n,
                Err(e) => r matches Err(er) && er@ == e,
            },
    {
        let ghost src0 = self.src@;
        let ghost spent0 = f.spent();
        let start = self.index;
        let mut j = start + 1;
        let mut scanning = true;
        while scanning
            invariant
                start < j <= n,
                ident_end(src0, start as int + 1) == ident_end(src0, j as int),
                !scanning ==> j == ident_end(src0, start as int + 1),
            decreases n - j, if scanning {
                1int
            } else {
                0int
            },
        {
            if j >= n {
                scanning = false;
            } else {
                let d = self.src.get_char(j);
                if ident_char(d) {
                    proof {
                        assert(ident_end(src0, j as int) == ident_end(src0, j as int + 1));
                    }
                    j = j + 1;
                } else {
                    scanning = false;
                }
            }
            proof {
                if !scanning {
                    assert(ident_end(src0, j as int) == j);
                }
            }
        }
        let name = self.src.substring_char(start, j);
        let token_type = if str_eqv(name, "true") {
            TokenType::Bool(true)
        } else if str_eqv(name, "false") {
            TokenType::Bool(false)
        } else if str_eqv(name, "if") {
            TokenType::If
        } else if str_eqv(name, "let") {
            TokenType::Let
        } else if str_eqv(name, "for") {
            TokenType::For
        } else if str_eqv(name, "while") {
            TokenType::While
        } else if str_eqv(name, "yield") {
            TokenType::Yield
        } else {
            TokenType::Identifier(name.to_owned())
        };
        self.index = j;
        Ok(Token::new(token_type, start, j - start, f))
    }

    /// Lex the whole source: the token stream of [`spec_lex_from`], ending in
    /// a single end-of-input token, or the first error.
    #[verifier::loop_isolation(false)]
    pub fn run(&mut self, f: &mut SpanFactory) -> (r: Result<Vec<Token>, LangError>)
        ensures
            match spec_lex_from(old(self).src@, old(self).index as int, old(f).spent()) {
                Ok(toks) => r matches Ok(v) && token_views(v@) == toks,
                Err(e) => r matches Err(er) && er@ == e,
            },
    {
        let ghost src0 = self.src@;
        let ghost i0 = self.index as int;
        let ghost spent0 = f.spent();
        let n = self.src.unicode_len();
        let mut buf: Vec<Token> = Vec::new();
        if self.index > n {
            // a cursor past the end sees only the end of input
            let tok = Token::new(TokenType::EOF, self.index, 0, f);
            buf.push(tok);
            proof {
                assert(token_views(buf@) =~= spec_lex_from(src0, i0, spent0)->Ok_0);
            }
            return Ok(buf);
        }
        loop
            invariant
                self.src@ == src0,
                n == src0.len(),
                self.index <= n,
                (match spec_lex_from(src0, self.index as int, f.spent()) {
                    Ok(toks) => spec_lex_from(src0, i0, spent0) == Ok::<Seq<TokenV>, LangErrorV>(
                        token_views(buf@) + toks,
                    ),
                    Err(e) => spec_lex_from(src0, i0, spent0) == Err::<Seq<TokenV>, LangErrorV>(e),
                }),
            decreases n - self.index,
        {
            let ghost spent_here = f.spent();
            let ghost i_here = self.index as int;
            if self.index >= n {
                let ghost buf0 = buf@;
                let tok = Token::new(TokenType::EOF, self.index, 0, f);
                buf.push(tok);
                proof {
                    let toks = spec_lex_from(src0, i_here, spent_here)->Ok_0;
                    assert(tok@ == (TokenV {
                        kind: TokenTypeV::EOF,
                        span: span_at(i_here, i_here, spent_here),
                    }));
                    assert(token_views(buf@) =~= token_views(buf0) + toks);
                }
                return Ok(buf);
            }
            let c = self.src.get_char(self.index);
            if ws_char(c) {
                proof {
                    assert(spec_lex_from(src0, i_here, spent_here) == spec_lex_from(
                        src0,
                        i_here + 1,
                        spent_here,
                    ));
                }
                self.index = self.index + 1;
                continue ;
            }
            match self.scan_token(f, n) {
                Err(e) => {
                    proof {
                        assert(spec_lex_from(src0, i_here, spent_here) == Err::<
                            Seq<TokenV>,
                            LangErrorV,
                        >(e@));
                    }
                    return Err(e);
                },
                Ok(t) => {
                    let ghost buf0 = buf@;
                    buf.push(t);
                    proof {
                        let pair = spec_scan_token(src0, i_here, spent_here)->Ok_0;
                        assert(self.index as int == pair.1);
                        assert(i_here < pair.1 <= src0.len());
                        assert(f.spent() == spent_after(spent_here));
                        let rest_r = spec_lex_from(src0, pair.1, spent_after(spent_here));
                        assert(spec_lex_from(src0, i_here, spent_here) == (match rest_r {
                            Ok(rest) => Ok::<Seq<TokenV>, LangErrorV>(seq![pair.0] + rest),
                            Err(e) => Err::<Seq<TokenV>, LangErrorV>(e),
                        }));
                        let old_views = token_views(buf0);
                        assert(token_views(buf@) =~= old_views + seq![t@]);
                        match rest_r {
                            Ok(rest) => {
                                assert((old_views + seq![t@]) + rest =~= old_views + (seq![t@]
                                    + rest));
                                assert(token_views(buf@) + rest == old_views + (seq![pair.0]
                                    + rest));
                            },
                            Err(e) => {},
                        }
                    }
                },
            }
        }
    }
}

/// The kind of a character the lexer emits directly as a single-character
/// token.
fn single_char_token_type(c: char) -> (r: Option<TokenType>)
    ensures
        match single_char_kind(c) {
            Some(kind) => r matches Some(ty) && ty@ == kind,
            None => r is None,
        },
{
    if c == '(' {
        Some(TokenType::LeftParen)
    } else if c == ')' {
        Some(TokenType::RightParen)
    } else if c == '{' {
        Some(TokenType::LeftBrace)
    } else if c == '}' {
        Some(TokenType::RightBrace)
    } else if c == '[' {
        Some(TokenType::LeftSquare)
    } else if c == ']' {
        Some(TokenType::RightSquare)
    } else if c == ',' {
        Some(TokenType::Comma)
    } else if c == '.' {
        Some(TokenType::Dot)
    } else if c == '-' {
        Some(TokenType::Minus)
    } else if c == '+' {
        Some(TokenType::Plus)
    } else if c == '*' {
        Some(TokenType::Star)
    } else if c == ';' {
        Some(TokenType::Semicolon)
    } else if c == '/' {
        Some(TokenType::Slash)
    } else {
        None
    }
}

} // verus!
