//! The parser: recursive descent with one token of lookahead, from the token
//! stream to a statement list. Expressions are right-associative by
//! construction: after a primary expression, a binary operator starts a
//! recursive parse of the whole right operand, so precedence is expressed
//! with parentheses.
//!
//! The spec functions here are the mathematical parser; each executable
//! method returns exactly its result.

use vstd::prelude::*;
use crate::span::{Span, SpanFactory};
use crate::token::{Token, TokenType, TokenTypeV, TokenV};
use crate::lex::{span_at, token_views};
use crate::error::{LangError, LangErrorV};
use crate::ast::{
    expr_span,
    Application,
    ApplicationV,
    Expression,
    ExpressionV,
    Identifier,
    IdentifierV,
    If,
    IfV,
    Let,
    LetV,
    Literal,
    Mutate,
    MutateV,
    OperatorType,
    Statement,
    StatementV,
    While,
    WhileV,
};
use crate::text::spec_token_text;

verus! {

/// Whether the cursor stands at the end of input: past the last token, or on
/// the end-of-input sentinel.
pub open spec fn spec_at_eof(toks: Seq<TokenV>, i: int) -> bool {
    i >= toks.len() || toks[i].kind is EOF
}

/// Whether the cursor stands on the end-of-input sentinel (a cursor past the
/// last token does not count).
pub open spec fn spec_at_line_end(toks: Seq<TokenV>, i: int) -> bool {
    i < toks.len() && toks[i].kind is EOF
}

/// The error reported when the input ends where a token was expected.
pub open spec fn eof_err(lo: int, hi: int, spent: nat, expected: Seq<char>) -> LangErrorV {
    LangErrorV::UnexpectedEndOfFile { span: span_at(lo, hi, spent), expected, found: None }
}

/// Consume one token of the given kind: the token and the position past it,
/// or the error the mismatch deserves.
pub open spec fn spec_consume(toks: Seq<TokenV>, i: int, spent: nat, ty: TokenTypeV) -> Result<
    (TokenV, int),
    LangErrorV,
> {
    if i >= toks.len() {
        Err(
            LangErrorV::UnexpectedEndOfFile {
                span: span_at(i, i, spent),
                expected: spec_token_text(ty),
                found: Some("end of file"@),
            },
        )
    } else if toks[i].kind == ty {
        Ok((toks[i], i + 1))
    } else {
        Err(
            LangErrorV::ExpectedToken {
                span: span_at(i, i + 1, spent),
                expected: ty,
                found: toks[i].kind,
            },
        )
    }
}

/// One literal expression read at the cursor. A number past the signed 32-bit
/// range, or a token that is no literal, is an invalid literal.
pub open spec fn spec_parse_literal(toks: Seq<TokenV>, i: int, spent: nat) -> Result<
    (Literal, int),
    LangErrorV,
> {
    if i >= toks.len() {
        Err(eof_err(i, i + 1, spent, "EOF"@))
    } else {
        match toks[i].kind {
            TokenTypeV::Bool(b) => Ok((Literal::Boolean { val: b, span: toks[i].span }, i + 1)),
            TokenTypeV::Char(c) => Ok((Literal::Char { val: c, span: toks[i].span }, i + 1)),
            TokenTypeV::Number(n) => if n > i32::MAX {
                Err(
                    LangErrorV::InvalidLiteral {
                        span: toks[i].span,
                        invalid_literal: toks[i].kind,
                    },
                )
            } else {
                Ok((Literal::Number { val: n as i32, span: toks[i].span }, i + 1))
            },
            kind => Err(LangErrorV::InvalidLiteral { span: toks[i].span, invalid_literal: kind }),
        }
    }
}

/// One unary operator read at the cursor: only `!` and `-` qualify.
pub open spec fn spec_parse_unary_operator(toks: Seq<TokenV>, i: int, spent: nat) -> Result<
    (OperatorType, int),
    LangErrorV,
> {
    if i >= toks.len() {
        Err(eof_err(i, i + 1, spent, "EOF"@))
    } else {
        match toks[i].kind {
            TokenTypeV::Bang => Ok((OperatorType::Not, i + 1)),
            TokenTypeV::Minus => Ok((OperatorType::Minus, i + 1)),
            kind => Err(LangErrorV::InvalidUnaryOperator { span: toks[i].span, op: kind }),
        }
    }
}

/// The binary operator a token kind stands for, if it stands for one.
pub open spec fn spec_binary_op_of(kind: TokenTypeV) -> Option<OperatorType> {
    match kind {
        TokenTypeV::Minus => Some(OperatorType::Minus),
        TokenTypeV::Plus => Some(OperatorType::Plus),
        TokenTypeV::Slash => Some(OperatorType::Divide),
        TokenTypeV::Star => Some(OperatorType::Multiply),
        TokenTypeV::LessThan => Some(OperatorType::LessThan),
        TokenTypeV::GreaterThan => Some(OperatorType::GreaterThan),
        TokenTypeV::LessThanEq => Some(OperatorType::LessThanEq),
        TokenTypeV::GreaterThanEq => Some(OperatorType::GreaterThanEq),
        TokenTypeV::EqEq => Some(OperatorType::Equal),
        TokenTypeV::BangEq => Some(OperatorType::NotEqual),
        _ => None,
    }
}

/// One binary operator read at the cursor, which must stand on a token; a
/// token that stands for no binary operator is an error.
pub open spec fn spec_parse_binary_operator(toks: Seq<TokenV>, i: int, spent: nat) -> Result<
    (OperatorType, int),
    LangErrorV,
> {
    match spec_binary_op_of(toks[i].kind) {
        Some(op) => Ok((op, i + 1)),
        None => Err(LangErrorV::InvalidBinaryOperator { span: toks[i].span, op: toks[i].kind }),
    }
}

/// Whether a token kind may continue a partial expression as a binary
/// application. `!` is dispatched here but is rejected as a binary operator.
pub open spec fn spec_starts_binary(kind: TokenTypeV) -> bool {
    ||| kind is Minus
    ||| kind is Plus
    ||| kind is Slash
    ||| kind is Star
    ||| kind is LessThan
    ||| kind is GreaterThan
    ||| kind is LessThanEq
    ||| kind is GreaterThanEq
    ||| kind is EqEq
    ||| kind is Bang
    ||| kind is BangEq
}

/// One expression read at the cursor: a literal, a unary application, a
/// parenthesised group, an identifier or array index, or an array literal,
/// continued by [`spec_parse_partial`] where a binary operator follows.
pub open spec fn spec_parse_expr(toks: Seq<TokenV>, i: int, spent: nat) -> Result<
    (ExpressionV, int),
    LangErrorV,
>
    decreases toks.len() - i, 4int,
{
    if spec_at_eof(toks, i) {
        Err(eof_err(if i > 0 { i - 1 } else { 0 }, i, spent, "expression"@))
    } else {
        let step = match toks[i].kind {
            TokenTypeV::Number(_) => spec_parse_primary_literal(toks, i, spent),
            TokenTypeV::Bool(_) => spec_parse_primary_literal(toks, i, spent),
            TokenTypeV::Char(_) => spec_parse_primary_literal(toks, i, spent),
            TokenTypeV::Minus => spec_parse_unary(toks, i, spent),
            TokenTypeV::Bang => spec_parse_unary(toks, i, spent),
            TokenTypeV::LeftParen => spec_parse_group(toks, i, spent),
            TokenTypeV::Identifier(_) => spec_parse_ident_expr(toks, i, spent),
            TokenTypeV::LeftSquare => spec_parse_array(toks, i, spent),
            kind => Err(
                LangErrorV::UnexpectedToken {
                    span: toks[i].span,
                    tok: kind,
                    expected: "expression"@,
                },
            ),
        };
        match step {
            Err(e) => Err(e),
            Ok((expr, j)) => if i < j <= toks.len() {
                spec_parse_partial(toks, j, spent, expr)
            } else {
                Err(arbitrary())
            },
        }
    }
}

/// A literal primary: the literal itself, then any binary continuation.
pub open spec fn spec_parse_primary_literal(toks: Seq<TokenV>, i: int, spent: nat) -> Result<
    (ExpressionV, int),
    LangErrorV,
>
    decreases toks.len() - i, 3int,
{
    match spec_parse_literal(toks, i, spent) {
        Err(e) => Err(e),
        Ok((lit, j)) => if i < j <= toks.len() {
            spec_parse_partial(toks, j, spent, ExpressionV::Literal { lit })
        } else {
            Err(arbitrary())
        },
    }
}

/// A unary application: the operator, then a whole expression as its operand;
/// the span joins the operator token with the operand.
pub open spec fn spec_parse_unary(toks: Seq<TokenV>, i: int, spent: nat) -> Result<
    (ExpressionV, int),
    LangErrorV,
>
    decreases toks.len() - i, 3int,
{
    match spec_parse_unary_operator(toks, i, spent) {
        Err(e) => Err(e),
        Ok((op, j)) => if i < j <= toks.len() {
            match spec_parse_expr(toks, j, spent) {
                Err(e) => Err(e),
                Ok((inner, k)) => Ok(
                    (
                        ExpressionV::App {
                            app: ApplicationV::Unary {
                                op,
                                expr: Box::new(inner),
                                span: Span::spec_superspan(toks[i].span, expr_span(inner)),
                            },
                        },
                        k,
                    ),
                ),
            }
        } else {
            Err(arbitrary())
        },
    }
}

/// A parenthesised group: the inner expression must be followed by the
/// matching closing parenthesis; the group's span runs from one parenthesis
/// to the other.
pub open spec fn spec_parse_group(toks: Seq<TokenV>, i: int, spent: nat) -> Result<
    (ExpressionV, int),
    LangErrorV,
>
    decreases toks.len() - i, 3int,
{
    if i >= toks.len() {
        Err(arbitrary())
    } else {
        match spec_parse_expr(toks, i + 1, spent) {
        Err(e) => Err(e),
        Ok((inner, j)) => if i + 1 < j <= toks.len() {
            if j >= toks.len() {
                Err(eof_err(j, j + 1, spent, "EOF"@))
            } else if toks[j].kind is RightParen {
                let span = Span {
                    id: toks[i].span.id,
                    span: (
                        crate::span::min_usize(toks[i].span.span.0, toks[j].span.span.0),
                        crate::span::max_usize(toks[i].span.span.1, toks[j].span.span.1),
                    ),
                };
                Ok((ExpressionV::Group { expr: Box::new(inner), span }, j + 1))
            } else {
                Err(
                    LangErrorV::UnmatchedDelimiter {
                        span: toks[j].span,
                        expected: TokenTypeV::RightParen,
                        found: toks[j].kind,
                    },
                )
            }
        } else {
            Err(arbitrary())
        },
    }
    }
}

/// An identifier primary: a bare identifier, or an array index when an
/// opening square bracket follows; the index's span joins the identifier with
/// the closing bracket.
pub open spec fn spec_parse_ident_expr(toks: Seq<TokenV>, i: int, spent: nat) -> Result<
    (ExpressionV, int),
    LangErrorV,
>
    decreases toks.len() - i, 3int,
{
    let ident = IdentifierV { id: toks[i].kind->Identifier_0, span: toks[i].span };
    if i + 1 >= toks.len() {
        Err(eof_err(i + 1, i + 2, spent, "EOF"@))
    } else if toks[i + 1].kind is LeftSquare {
        match spec_parse_expr(toks, i + 2, spent) {
            Err(e) => Err(e),
            Ok((index, j)) => if i + 2 < j <= toks.len() {
                match spec_consume(toks, j, spent, TokenTypeV::RightSquare) {
                    Err(e) => Err(e),
                    Ok((rs, k)) => Ok(
                        (
                            ExpressionV::Index {
                                variable: ident,
                                index: Box::new(index),
                                span: Span::spec_superspan(ident.span, rs.span),
                            },
                            k,
                        ),
                    ),
                }
            } else {
                Err(arbitrary())
            },
        }
    } else {
        Ok((ExpressionV::Identifier(ident), i + 1))
    }
}

/// An array literal: expressions up to the closing square bracket, single
/// commas between elements skipped; the array's span joins the brackets.
pub open spec fn spec_parse_array(toks: Seq<TokenV>, i: int, spent: nat) -> Result<
    (ExpressionV, int),
    LangErrorV,
>
    decreases toks.len() - i, 3int,
{
    match spec_consume(toks, i, spent, TokenTypeV::LeftSquare) {
        Err(e) => Err(e),
        Ok((ls, j)) => if j == i + 1 {
            match spec_parse_array_elements(toks, j, spent, Seq::empty()) {
                Err(e) => Err(e),
                Ok((elements, k)) => if j <= k < toks.len() {
                    let rs = toks[k];
                    Ok(
                        (
                            ExpressionV::Array {
                                elements,
                                span: Span::spec_superspan(ls.span, rs.span),
                            },
                            k + 1,
                        ),
                    )
                } else {
                    Err(arbitrary())
                },
            }
        } else {
            Err(arbitrary())
        },
    }
}

/// The elements of an array literal, up to but not including the closing
/// square bracket the cursor ends on.
pub open spec fn spec_parse_array_elements(
    toks: Seq<TokenV>,
    i: int,
    spent: nat,
    acc: Seq<ExpressionV>,
) -> Result<(Seq<ExpressionV>, int), LangErrorV>
    decreases toks.len() - i, 5int,
{
    if i >= toks.len() {
        Err(eof_err(i, i + 1, spent, "EOF"@))
    } else if toks[i].kind is RightSquare {
        Ok((acc, i))
    } else if toks[i].kind is Comma {
        match spec_parse_expr(toks, i + 1, spent) {
            Err(e) => Err(e),
            Ok((expr, j)) => if i + 1 < j <= toks.len() {
                spec_parse_array_elements(toks, j, spent, acc.push(expr))
            } else {
                Err(arbitrary())
            },
        }
    } else {
        match spec_parse_expr(toks, i, spent) {
            Err(e) => Err(e),
            Ok((expr, j)) => if i < j <= toks.len() {
                spec_parse_array_elements(toks, j, spent, acc.push(expr))
            } else {
                Err(arbitrary())
            },
        }
    }
}

/// Continue an expression: a following binary operator takes `left` as its
/// left operand and a whole expression as its right operand (so binary
/// applications associate to the right); anything else ends the expression.
pub open spec fn spec_parse_partial(
    toks: Seq<TokenV>,
    i: int,
    spent: nat,
    left: ExpressionV,
) -> Result<(ExpressionV, int), LangErrorV>
    decreases toks.len() - i, 2int,
{
    if spec_at_eof(toks, i) || spec_at_line_end(toks, i) {
        Ok((left, i))
    } else if spec_starts_binary(toks[i].kind) {
        match spec_parse_binary_operator(toks, i, spent) {
            Err(e) => Err(e),
            Ok((op, j)) => if j == i + 1 && j <= toks.len() {
                match spec_parse_expr(toks, j, spent) {
                    Err(e) => Err(e),
                    Ok((right, k)) => Ok(
                        (
                            ExpressionV::App {
                                app: ApplicationV::Binary {
                                    op,
                                    left: Box::new(left),
                                    right: Box::new(right),
                                    span: Span::spec_superspan(
                                        expr_span(left),
                                        expr_span(right),
                                    ),
                                },
                            },
                            k,
                        ),
                    ),
                }
            } else {
                Err(arbitrary())
            },
        }
    } else {
        Ok((left, i))
    }
}

/// An assignment tail: the assigned-to token, `:=`, the assigned expression
/// and the closing semicolon.
pub open spec fn spec_parse_assign(toks: Seq<TokenV>, i: int, spent: nat) -> Result<
    ((TokenV, ExpressionV), int),
    LangErrorV,
> {
    if i >= toks.len() {
        Err(eof_err(if i > 0 { i - 1 } else { 0 }, i, spent, "identifier"@))
    } else {
        let variable = toks[i];
        match spec_consume(toks, i + 1, spent, TokenTypeV::Assign) {
            Err(e) => Err(e),
            Ok((_, j)) => match spec_parse_expr(toks, j, spent) {
                Err(e) => Err(e),
                Ok((value, k)) => match spec_consume(toks, k, spent, TokenTypeV::Semicolon) {
                    Err(e) => Err(e),
                    Ok((_, m)) => Ok(((variable, value), m)),
                },
            },
        }
    }
}

/// A `let` binding: the keyword, an assignment tail, and a binding whose span
/// runs from the keyword to the bound expression. A target token that is not
/// an identifier is an invalid identifier.
pub open spec fn spec_parse_let(toks: Seq<TokenV>, i: int, spent: nat) -> Result<
    (LetV, int),
    LangErrorV,
> {
    match spec_consume(toks, i, spent, TokenTypeV::Let) {
        Err(e) => Err(e),
        Ok((start, j)) => match spec_parse_assign(toks, j, spent) {
            Err(e) => Err(e),
            Ok(((variable, value), k)) => match variable.kind {
                TokenTypeV::Identifier(name) => Ok(
                    (
                        LetV {
                            variable: name,
                            value,
                            span: Span::spec_superspan(start.span, expr_span(value)),
                        },
                        k,
                    ),
                ),
                kind => Err(
                    LangErrorV::InvalidIdentifier {
                        span: variable.span,
                        id_literal: spec_token_text(kind),
                    },
                ),
            },
        },
    }
}

/// A mutation: an assignment tail whose target token is an identifier; the
/// span joins the target with the assigned expression.
pub open spec fn spec_parse_mutate(toks: Seq<TokenV>, i: int, spent: nat) -> Result<
    (MutateV, int),
    LangErrorV,
> {
    match spec_parse_assign(toks, i, spent) {
        Err(e) => Err(e),
        Ok(((variable, value), k)) => Ok(
            (
                MutateV {
                    variable: variable.kind->Identifier_0,
                    value,
                    span: Span::spec_superspan(variable.span, expr_span(value)),
                },
                k,
            ),
        ),
    }
}

/// A `yield` statement: the keyword, the yielded expression and the closing
/// semicolon.
pub open spec fn spec_parse_yield(toks: Seq<TokenV>, i: int, spent: nat) -> Result<
    (StatementV, int),
    LangErrorV,
> {
    match spec_consume(toks, i, spent, TokenTypeV::Yield) {
        Err(e) => Err(e),
        Ok((_, j)) => match spec_parse_expr(toks, j, spent) {
            Err(e) => Err(e),
            Ok((expr, k)) => match spec_consume(toks, k, spent, TokenTypeV::Semicolon) {
                Err(e) => Err(e),
                Ok((_, m)) => Ok((StatementV::Yield(expr), m)),
            },
        },
    }
}

/// An `if` or `while` statement, decided by the keyword the cursor stands on:
/// the condition expression, then the brace-delimited body; the statement's
/// span covers the keyword, the condition and both braces.
pub open spec fn spec_parse_wif(toks: Seq<TokenV>, i: int, spent: nat) -> Result<
    (StatementV, int),
    LangErrorV,
>
    decreases toks.len() - i, 6int,
{
    if i >= toks.len() {
        Err(arbitrary())
    } else {
    let start = toks[i];
    match spec_parse_expr(toks, i + 1, spent) {
        Err(e) => Err(e),
        Ok((condition, j)) => if i + 1 < j <= toks.len() {
            match spec_consume(toks, j, spent, TokenTypeV::LeftBrace) {
                Err(e) => Err(e),
                Ok((lb, k)) => if k != j + 1 {
                    Err(arbitrary())
                } else {
                    match spec_parse_stmts(toks, k, spent, Seq::empty()) {
                    Err(e) => Err(e),
                    Ok((body, m)) => if k <= m <= toks.len() {
                        match spec_consume(toks, m, spent, TokenTypeV::RightBrace) {
                            Err(e) => Err(e),
                            Ok((rb, p)) => {
                                let span = Span::spec_together(
                                    seq![start.span, expr_span(condition), lb.span, rb.span],
                                );
                                if start.kind is If {
                                    Ok(
                                        (
                                            StatementV::If(IfV { condition, iff: body, span }),
                                            p,
                                        ),
                                    )
                                } else {
                                    Ok(
                                        (
                                            StatementV::While(
                                                WhileV { condition, body, span },
                                            ),
                                            p,
                                        ),
                                    )
                                }
                            },
                        }
                    } else {
                        Err(arbitrary())
                    },
                }
                },
            }
        } else {
            Err(arbitrary())
        },
    }
    }
}

/// One statement read at the cursor, dispatched on its first token; an
/// identifier followed by `:=` starts a mutation, otherwise it starts an
/// expression statement.
pub open spec fn spec_parse_stmt(toks: Seq<TokenV>, i: int, spent: nat) -> Result<
    (StatementV, int),
    LangErrorV,
>
    decreases toks.len() - i, 7int,
{
    if i >= toks.len() {
        Err(arbitrary())
    } else {
    match toks[i].kind {
        TokenTypeV::Identifier(_) => {
            if i + 2 > toks.len() {
                Err(eof_err(i, i + 1, spent, "EOF"@))
            } else if toks[i + 1].kind is Assign {
                match spec_parse_mutate(toks, i, spent) {
                    Err(e) => Err(e),
                    Ok((m, j)) => Ok((StatementV::Mutate(m), j)),
                }
            } else {
                match spec_parse_expr(toks, i, spent) {
                    Err(e) => Err(e),
                    Ok((e, j)) => Ok((StatementV::Expr(e), j)),
                }
            }
        },
        TokenTypeV::Number(_) => match spec_parse_expr(toks, i, spent) {
            Err(e) => Err(e),
            Ok((e, j)) => Ok((StatementV::Expr(e), j)),
        },
        TokenTypeV::Bool(_) => match spec_parse_expr(toks, i, spent) {
            Err(e) => Err(e),
            Ok((e, j)) => Ok((StatementV::Expr(e), j)),
        },
        TokenTypeV::Char(_) => match spec_parse_expr(toks, i, spent) {
            Err(e) => Err(e),
            Ok((e, j)) => Ok((StatementV::Expr(e), j)),
        },
        TokenTypeV::LeftParen => match spec_parse_expr(toks, i, spent) {
            Err(e) => Err(e),
            Ok((e, j)) => Ok((StatementV::Expr(e), j)),
        },
        TokenTypeV::Bang => match spec_parse_expr(toks, i, spent) {
            Err(e) => Err(e),
            Ok((e, j)) => Ok((StatementV::Expr(e), j)),
        },
        TokenTypeV::Minus => match spec_parse_expr(toks, i, spent) {
            Err(e) => Err(e),
            Ok((e, j)) => Ok((StatementV::Expr(e), j)),
        },
        TokenTypeV::Let => match spec_parse_let(toks, i, spent) {
            Err(e) => Err(e),
            Ok((l, j)) => Ok((StatementV::Let(l), j)),
        },
        TokenTypeV::While => spec_parse_wif(toks, i, spent),
        TokenTypeV::If => spec_parse_wif(toks, i, spent),
        TokenTypeV::Yield => spec_parse_yield(toks, i, spent),
        kind => Err(
            LangErrorV::UnexpectedToken { span: toks[i].span, tok: kind, expected: "statement"@ },
        ),
    }
    }
}

/// The statement list from the cursor on, stopping (without consuming) at the
/// end of input or at a closing brace.
pub open spec fn spec_parse_stmts(
    toks: Seq<TokenV>,
    i: int,
    spent: nat,
    acc: Seq<StatementV>,
) -> Result<(Seq<StatementV>, int), LangErrorV>
    decreases toks.len() - i, 8int,
{
    if i >= toks.len() {
        Ok((acc, i))
    } else if toks[i].kind is EOF || toks[i].kind is RightBrace {
        Ok((acc, i))
    } else {
        match spec_parse_stmt(toks, i, spent) {
            Err(e) => Err(e),
            Ok((stmt, j)) => if i < j <= toks.len() {
                spec_parse_stmts(toks, j, spent, acc.push(stmt))
            } else {
                Err(arbitrary())
            },
        }
    }
}

/// Whether two token kinds are the same kind with the same payload.
pub fn token_type_eqv(a: &TokenType, b: &TokenType) -> (r: bool)
    ensures
        r == (a@ == b@),
{
    match (a, b) {
        (TokenType::LeftParen, TokenType::LeftParen) => true,
        (TokenType::RightParen, TokenType::RightParen) => true,
        (TokenType::LeftBrace, TokenType::LeftBrace) => true,
        (TokenType::RightBrace, TokenType::RightBrace) => true,
        (TokenType::LeftSquare, TokenType::LeftSquare) => true,
        (TokenType::RightSquare, TokenType::RightSquare) => true,
        (TokenType::Comma, TokenType::Comma) => true,
        (TokenType::Dot, TokenType::Dot) => true,
        (TokenType::Minus, TokenType::Minus) => true,
        (TokenType::Plus, TokenType::Plus) => true,
        (TokenType::Slash, TokenType::Slash) => true,
        (TokenType::Star, TokenType::Star) => true,
        (TokenType::Semicolon, TokenType::Semicolon) => true,
        (TokenType::LessThan, TokenType::LessThan) => true,
        (TokenType::GreaterThan, TokenType::GreaterThan) => true,
        (TokenType::LessThanEq, TokenType::LessThanEq) => true,
        (TokenType::GreaterThanEq, TokenType::GreaterThanEq) => true,
        (TokenType::EqEq, TokenType::EqEq) => true,
        (TokenType::Colon, TokenType::Colon) => true,
        (TokenType::Assign, TokenType::Assign) => true,
        (TokenType::Bang, TokenType::Bang) => true,
        (TokenType::BangEq, TokenType::BangEq) => true,
        (TokenType::Identifier(x), TokenType::Identifier(y)) => x.eq(y),
        (TokenType::Char(x), TokenType::Char(y)) => x == y,
        (TokenType::Number(x), TokenType::Number(y)) => x == y,
        (TokenType::Bool(x), TokenType::Bool(y)) => x == y,
        (TokenType::Let, TokenType::Let) => true,
        (TokenType::If, TokenType::If) => true,
        (TokenType::For, TokenType::For) => true,
        (TokenType::While, TokenType::While) => true,
        (TokenType::Yield, TokenType::Yield) => true,
        (TokenType::EOF, TokenType::EOF) => true,
        _ => false,
    }
}

/// The recursive-descent parser over a token slice.
pub struct LangParser<'i> {
    pub src: &'i [Token],
    pub index: usize,
}

impl<'i> LangParser<'i> {
    /// The parser's cursor stands inside its input, which leaves room to
    /// speak of the position one past any token.
    pub open spec fn wf(&self) -> bool {
        self.index <= self.src@.len() < usize::MAX
    }

    /// The views of the parser's tokens.
    pub open spec fn toks(&self) -> Seq<TokenV> {
        token_views(self.src@)
    }

    pub fn new(src: &'i [Token]) -> (r: LangParser<'i>)
        requires
            src@.len() < usize::MAX,
        ensures
            r.src == src,
            r.index == 0,
            r.wf(),
    {
        LangParser { src, index: 0 }
    }

    /// checks if there are no tokens remaining, or the current token is the
    /// end-of-input sentinel.
    fn is_eof(&self) -> (r: bool)
        ensures
            r == spec_at_eof(self.toks(), self.index as int),
    {
        if self.index >= self.src.len() {
            true
        } else {
            match self.src[self.index].token_type() {
                TokenType::EOF => true,
                _ => false,
            }
        }
    }

    /// checks if the current token is the end-of-input sentinel.
    fn is_line_end(&self) -> (r: bool)
        ensures
            r == spec_at_line_end(self.toks(), self.index as int),
    {
        if self.index >= self.src.len() {
            false
        } else {
            match self.src[self.index].token_type() {
                TokenType::EOF => true,
                _ => false,
            }
        }
    }

    /// consume one token of a given type, erroring if it is not found
    fn consume(&mut self, ty: TokenType, f: &mut SpanFactory) -> (r: Result<Token, LangError>)
        requires
            old(self).wf(),
        ensures
            final(self).src == old(self).src,
            final(self).wf(),
            match spec_consume(old(self).toks(), old(self).index as int, old(f).spent(), ty@) {
                Ok(pair) => r matches Ok(t) && t@ == pair.0 && final(self).index == pair.1
                    && final(self).index == old(self).index + 1 && final(f).spent() == old(f).spent(),
                Err(e) => r matches Err(x) && x@ == e && final(self).index == old(self).index,
            },
    {
        if self.index >= self.src.len() {
            return Err(
                LangError::UnexpectedEndOfFile {
                    span: f.fresh(self.index, self.index),
                    expected: crate::text::token_text(&ty),
                    found: Some("end of file".to_owned()),
                },
            );
        }
        let tok = &self.src[self.index];
        if token_type_eqv(tok.token_type(), &ty) {
            let t = tok.clone();
            self.index = self.index + 1;
            Ok(t)
        } else {
            Err(
                LangError::ExpectedToken {
                    span: f.fresh(self.index, self.index + 1),
                    expected: ty,
                    found: tok.ty(),
                },
            )
        }
    }

    fn parse_literal(&mut self, f: &mut SpanFactory) -> (r: Result<Literal, LangError>)
        requires
            old(self).wf(),
        ensures
            final(self).src == old(self).src,
            final(self).wf(),
            match spec_parse_literal(old(self).toks(), old(self).index as int, old(f).spent()) {
                Ok(pair) => r matches Ok(lit) && lit == pair.0 && final(self).index == pair.1
                    && final(self).index == old(self).index + 1 && final(f).spent() == old(f).spent(),
                Err(e) => r matches Err(x) && x@ == e,
            },
    {
        if self.index >= self.src.len() {
            return Err(
                LangError::UnexpectedEndOfFile {
                    span: f.fresh(self.index, self.index + 1),
                    expected: "EOF".to_owned(),
                    found: None,
                },
            );
        }
        let tok = &self.src[self.index];
        let lit = match tok.token_type() {
            TokenType::Bool(b) => Literal::Boolean { val: *b, span: tok.span() },
            TokenType::Char(c) => Literal::Char { val: *c, span: tok.span() },
            TokenType::Number(n) => {
                if *n > i32::MAX as u64 {
                    return Err(
                        LangError::InvalidLiteral { span: tok.span(), invalid_literal: tok.ty() },
                    );
                }
                Literal::Number { val: *n as i32, span: tok.span() }
            },
            _ => {
                return Err(
                    LangError::InvalidLiteral { span: tok.span(), invalid_literal: tok.ty() },
                );
            },
        };
        self.index = self.index + 1;
        Ok(lit)
    }

    fn parse_unary_operator(&mut self, f: &mut SpanFactory) -> (r: Result<OperatorType, LangError>)
        requires
            old(self).wf(),
        ensures
            final(self).src == old(self).src,
            final(self).wf(),
            match spec_parse_unary_operator(
                old(self).toks(),
                old(self).index as int,
                old(f).spent(),
            ) {
                Ok(pair) => r matches Ok(op) && op == pair.0 && final(self).index == pair.1
                    && final(self).index == old(self).index + 1 && final(f).spent() == old(f).spent(),
                Err(e) => r matches Err(x) && x@ == e,
            },
    {
        if self.index >= self.src.len() {
            return Err(
                LangError::UnexpectedEndOfFile {
                    span: f.fresh(self.index, self.index + 1),
                    expected: "EOF".to_owned(),
                    found: None,
                },
            );
        }
        let tok = &self.src[self.index];
        let op = match tok.token_type() {
            TokenType::Bang => OperatorType::Not,
            TokenType::Minus => OperatorType::Minus,
            _ => {
                return Err(LangError::InvalidUnaryOperator { span: tok.span(), op: tok.ty() });
            },
        };
        self.index = self.index + 1;
        Ok(op)
    }

    fn parse_binary_operator(&mut self, f: &mut SpanFactory) -> (r: Result<
        OperatorType,
        LangError,
    >)
        requires
            old(self).wf(),
            old(self).index < old(self).src@.len(),
        ensures
            final(self).src == old(self).src,
            final(self).wf(),
            match spec_parse_binary_operator(
                old(self).toks(),
                old(self).index as int,
                old(f).spent(),
            ) {
                Ok(pair) => r matches Ok(op) && op == pair.0 && final(self).index == pair.1
                    && final(self).index == old(self).index + 1 && final(f).spent() == old(f).spent(),
                Err(e) => r matches Err(x) && x@ == e,
            },
    {
        let tok = &self.src[self.index];
        let op = match tok.token_type() {
            TokenType::Minus => OperatorType::Minus,
            TokenType::Plus => OperatorType::Plus,
            TokenType::Slash => OperatorType::Divide,
            TokenType::Star => OperatorType::Multiply,
            TokenType::LessThan => OperatorType::LessThan,
            TokenType::GreaterThan => OperatorType::GreaterThan,
            TokenType::LessThanEq => OperatorType::LessThanEq,
            TokenType::GreaterThanEq => OperatorType::GreaterThanEq,
            TokenType::EqEq => OperatorType::Equal,
            TokenType::BangEq => OperatorType::NotEqual,
            _ => {
                return Err(LangError::InvalidBinaryOperator { span: tok.span(), op: tok.ty() });
            },
        };
        self.index = self.index + 1;
        Ok(op)
    }

    pub fn parse_expr(&mut self, f: &mut SpanFactory) -> (r: Result<Expression, LangError>)
        requires
            old(self).wf(),
        ensures
            final(self).src == old(self).src,
            final(self).wf(),
            match spec_parse_expr(old(self).toks(), old(self).index as int, old(f).spent()) {
                Ok(pair) => r matches Ok(e) && e@ == pair.0 && final(self).index == pair.1 && old(self).index < final(self).index <= old(self).src@.len() && final(f).spent() == old(f).spent(),
                Err(e) => r matches Err(x) && x@ == e,
            },
        decreases old(self).src@.len() - old(self).index, 4int,
    {
        if self.is_eof() {
            let lo = if self.index > 0 {
                self.index - 1
            } else {
                0
            };
            return Err(
                LangError::UnexpectedEndOfFile {
                    span: f.fresh(lo, self.index),
                    expected: "expression".to_owned(),
                    found: None,
                },
            );
        }
        let is_literal = match self.src[self.index].token_type() {
            TokenType::Number(_) | TokenType::Bool(_) | TokenType::Char(_) => true,
            _ => false,
        };
        let is_unary = match self.src[self.index].token_type() {
            TokenType::Minus | TokenType::Bang => true,
            _ => false,
        };
        let expr: Expression = if is_literal {
            let lit = match self.parse_literal(f) {
                Ok(l) => l,
                Err(e) => {
                    return Err(e);
                },
            };
            let left = Expression::Literal { lit };
            match self.parse_partial(left, f) {
                Ok(e) => e,
                Err(e) => {
                    return Err(e);
                },
            }
        } else if is_unary {
            let tok = self.src[self.index].clone();
            let op = match self.parse_unary_operator(f) {
                Ok(o) => o,
                Err(e) => {
                    return Err(e);
                },
            };
            let inner = match self.parse_expr(f) {
                Ok(e) => e,
                Err(e) => {
                    return Err(e);
                },
            };
            Expression::App { app: Application::from_unary(&tok, op, inner) }
        } else {
            let dispatch = &self.src[self.index];
            match dispatch.token_type() {
                TokenType::LeftParen => {
                    let mut span = self.src[self.index].span();
                    self.index = self.index + 1;
                    let inner = match self.parse_expr(f) {
                        Ok(e) => e,
                        Err(e) => {
                            return Err(e);
                        },
                    };
                    if self.index >= self.src.len() {
                        return Err(
                            LangError::UnexpectedEndOfFile {
                                span: f.fresh(self.index, self.index + 1),
                                expected: "EOF".to_owned(),
                                found: None,
                            },
                        );
                    }
                    let is_closing = match self.src[self.index].token_type() {
                        TokenType::RightParen => true,
                        _ => false,
                    };
                    if !is_closing {
                        let closing = &self.src[self.index];
                        return Err(
                            LangError::UnmatchedDelimiter {
                                span: closing.span(),
                                expected: TokenType::RightParen,
                                found: closing.ty(),
                            },
                        );
                    }
                    span.join(self.src[self.index].span());
                    self.index = self.index + 1;
                    Expression::Group { expr: Box::new(inner), span }
                },
                TokenType::Identifier(name) => {
                    let identifier = Identifier::new(name.clone(), self.src[self.index].span());
                    self.index = self.index + 1;
                    if self.index >= self.src.len() {
                        return Err(
                            LangError::UnexpectedEndOfFile {
                                span: f.fresh(self.index, self.index + 1),
                                expected: "EOF".to_owned(),
                                found: None,
                            },
                        );
                    }
                    let next_is_square = match self.src[self.index].token_type() {
                        TokenType::LeftSquare => true,
                        _ => false,
                    };
                    if next_is_square {
                        self.index = self.index + 1;
                        let index_expr = match self.parse_expr(f) {
                            Ok(e) => e,
                            Err(e) => {
                                return Err(e);
                            },
                        };
                        let rs = match self.consume(TokenType::RightSquare, f) {
                            Ok(t) => t,
                            Err(e) => {
                                return Err(e);
                            },
                        };
                        let span = Span::superspan(identifier.span(), rs.span());
                        Expression::Index {
                            variable: identifier,
                            index: Box::new(index_expr),
                            span,
                        }
                    } else {
                        Expression::Identifier(identifier)
                    }
                },
                TokenType::LeftSquare => {
                    match self.parse_array(f) {
                        Ok(e) => e,
                        Err(e) => {
                            return Err(e);
                        },
                    }
                },
                _ => {
                    return Err(
                        LangError::UnexpectedToken {
                            span: dispatch.span(),
                            tok: dispatch.ty(),
                            expected: "expression".to_owned(),
                        },
                    );
                },
            }
        };
        self.parse_partial(expr, f)
    }

    fn parse_partial(&mut self, left: Expression, f: &mut SpanFactory) -> (r: Result<
        Expression,
        LangError,
    >)
        requires
            old(self).wf(),
        ensures
            final(self).src == old(self).src,
            final(self).wf(),
            match spec_parse_partial(
                old(self).toks(),
                old(self).index as int,
                old(f).spent(),
                left@,
            ) {
                Ok(pair) => r matches Ok(e) && e@ == pair.0 && final(self).index == pair.1 && old(self).index <= final(self).index <= old(self).src@.len() && final(f).spent() == old(f).spent(),
                Err(e) => r matches Err(x) && x@ == e,
            },
        decreases old(self).src@.len() - old(self).index, 2int,
    {
        if self.is_eof() || self.is_line_end() {
            return Ok(left);
        }
        let starts = match self.src[self.index].token_type() {
            TokenType::Minus | TokenType::Plus | TokenType::Slash | TokenType::Star
                | TokenType::LessThan | TokenType::GreaterThan | TokenType::LessThanEq
                | TokenType::GreaterThanEq | TokenType::EqEq | TokenType::Bang
                | TokenType::BangEq => true,
            _ => false,
        };
        if !starts {
            return Ok(left);
        }
        let op = match self.parse_binary_operator(f) {
            Ok(o) => o,
            Err(e) => {
                return Err(e);
            },
        };
        let right = match self.parse_expr(f) {
            Ok(e) => e,
            Err(e) => {
                return Err(e);
            },
        };
        Ok(Expression::App { app: Application::from_binary(op, left, right) })
    }

    #[verifier::loop_isolation(false)]
    fn parse_array(&mut self, f: &mut SpanFactory) -> (r: Result<Expression, LangError>)
        requires
            old(self).wf(),
        ensures
            final(self).src == old(self).src,
            final(self).wf(),
            match spec_parse_array(old(self).toks(), old(self).index as int, old(f).spent()) {
                Ok(pair) => r matches Ok(e) && e@ == pair.0 && final(self).index == pair.1 && old(self).index < final(self).index <= old(self).src@.len() && final(f).spent() == old(f).spent(),
                Err(e) => r matches Err(x) && x@ == e,
            },
        decreases old(self).src@.len() - old(self).index, 3int,
    {
        let ghost toks = self.toks();
        let ghost spent = f.spent();
        let left_square = match self.consume(TokenType::LeftSquare, f) {
            Ok(t) => t,
            Err(e) => {
                return Err(e);
            },
        };
        let ghost start = self.index as int;
        let mut elements: Vec<Expression> = Vec::new();
        loop
            invariant
                self.wf(),
                self.src == old(self).src,
                f.spent() == spent,
                start <= self.index as int <= self.src@.len(),
                spec_parse_array_elements(toks, start, spent, Seq::empty())
                    == spec_parse_array_elements(
                    toks,
                    self.index as int,
                    spent,
                    crate::ast::exprs_view(elements@),
                ),
            decreases self.src@.len() - self.index,
        {
            if self.index >= self.src.len() {
                return Err(
                    LangError::UnexpectedEndOfFile {
                        span: f.fresh(self.index, self.index + 1),
                        expected: "EOF".to_owned(),
                        found: None,
                    },
                );
            }
            let is_right = match self.src[self.index].token_type() {
                TokenType::RightSquare => true,
                _ => false,
            };
            if is_right {
                break ;
            }
            let ghost i_here = self.index as int;
            let ghost acc_here = crate::ast::exprs_view(elements@);
            let is_comma = match self.src[self.index].token_type() {
                TokenType::Comma => true,
                _ => false,
            };
            if is_comma {
                self.index = self.index + 1;
            }
            let expr = match self.parse_expr(f) {
                Ok(e) => e,
                Err(e) => {
                    return Err(e);
                },
            };
            let ghost before = elements@;
            elements.push(expr);
            proof {
                crate::ast::lemma_exprs_view_push(before, expr);
                assert(spec_parse_array_elements(toks, i_here, spent, acc_here)
                    == spec_parse_array_elements(
                    toks,
                    self.index as int,
                    spent,
                    acc_here.push(expr@),
                ));
            }
        }
        let right_square = match self.consume(TokenType::RightSquare, f) {
            Ok(t) => t,
            Err(e) => {
                return Err(e);
            },
        };
        let span = Span::superspan(left_square.span(), right_square.span());
        Ok(Expression::Array { elements, span })
    }

    fn parse_assign(&mut self, f: &mut SpanFactory) -> (r: Result<(Token, Expression), LangError>)
        requires
            old(self).wf(),
        ensures
            final(self).src == old(self).src,
            final(self).wf(),
            match spec_parse_assign(old(self).toks(), old(self).index as int, old(f).spent()) {
                Ok(pair) => r matches Ok(ve) && ve.0.view() == pair.0.0 && ve.1.view()
                    == pair.0.1 && final(self).index == pair.1 && old(self).index < final(self).index <= old(self).src@.len()
                    && final(f).spent() == old(f).spent(),
                Err(e) => r matches Err(x) && x@ == e,
            },
    {
        if self.index >= self.src.len() {
            let lo = if self.index > 0 {
                self.index - 1
            } else {
                0
            };
            return Err(
                LangError::UnexpectedEndOfFile {
                    span: f.fresh(lo, self.index),
                    expected: "identifier".to_owned(),
                    found: None,
                },
            );
        }
        let variable = self.src[self.index].clone();
        self.index = self.index + 1;
        match self.consume(TokenType::Assign, f) {
            Ok(_) => {},
            Err(e) => {
                return Err(e);
            },
        }
        let value = match self.parse_expr(f) {
            Ok(e) => e,
            Err(e) => {
                return Err(e);
            },
        };
        match self.consume(TokenType::Semicolon, f) {
            Ok(_) => {},
            Err(e) => {
                return Err(e);
            },
        }
        Ok((variable, value))
    }

    pub fn parse_let(&mut self, f: &mut SpanFactory) -> (r: Result<Let, LangError>)
        requires
            old(self).wf(),
        ensures
            final(self).src == old(self).src,
            final(self).wf(),
            match spec_parse_let(old(self).toks(), old(self).index as int, old(f).spent()) {
                Ok(pair) => r matches Ok(l) && l@ == pair.0 && final(self).index == pair.1 && old(self).index < final(self).index <= old(self).src@.len() && final(f).spent() == old(f).spent(),
                Err(e) => r matches Err(x) && x@ == e,
            },
    {
        let start = match self.consume(TokenType::Let, f) {
            Ok(t) => t,
            Err(e) => {
                return Err(e);
            },
        };
        let (variable, value) = match self.parse_assign(f) {
            Ok(p) => p,
            Err(e) => {
                return Err(e);
            },
        };
        Let::from(&variable, value, start.span())
    }

    pub fn parse_mutate(&mut self, f: &mut SpanFactory) -> (r: Result<Mutate, LangError>)
        requires
            old(self).wf(),
            old(self).index < old(self).toks().len(),
            old(self).toks()[old(self).index as int].kind is Identifier,
        ensures
            final(self).src == old(self).src,
            final(self).wf(),
            match spec_parse_mutate(old(self).toks(), old(self).index as int, old(f).spent()) {
                Ok(pair) => r matches Ok(m) && m@ == pair.0 && final(self).index == pair.1 && old(self).index < final(self).index <= old(self).src@.len() && final(f).spent() == old(f).spent(),
                Err(e) => r matches Err(x) && x@ == e,
            },
    {
        let (variable, value) = match self.parse_assign(f) {
            Ok(p) => p,
            Err(e) => {
                return Err(e);
            },
        };
        Ok(Mutate::from(&variable, value))
    }

    fn parse_yield(&mut self, f: &mut SpanFactory) -> (r: Result<Statement, LangError>)
        requires
            old(self).wf(),
        ensures
            final(self).src == old(self).src,
            final(self).wf(),
            match spec_parse_yield(old(self).toks(), old(self).index as int, old(f).spent()) {
                Ok(pair) => r matches Ok(s) && s@ == pair.0 && final(self).index == pair.1 && old(self).index < final(self).index <= old(self).src@.len() && final(f).spent() == old(f).spent(),
                Err(e) => r matches Err(x) && x@ == e,
            },
    {
        match self.consume(TokenType::Yield, f) {
            Ok(_) => {},
            Err(e) => {
                return Err(e);
            },
        }
        let expr = match self.parse_expr(f) {
            Ok(e) => e,
            Err(e) => {
                return Err(e);
            },
        };
        match self.consume(TokenType::Semicolon, f) {
            Ok(_) => {},
            Err(e) => {
                return Err(e);
            },
        }
        Ok(Statement::Yield(expr))
    }

    pub fn parse_wif(&mut self, f: &mut SpanFactory) -> (r: Result<Statement, LangError>)
        requires
            old(self).wf(),
            old(self).index < old(self).toks().len(),
        ensures
            final(self).src == old(self).src,
            final(self).wf(),
            match spec_parse_wif(old(self).toks(), old(self).index as int, old(f).spent()) {
                Ok(pair) => r matches Ok(s) && s@ == pair.0 && final(self).index == pair.1 && old(self).index < final(self).index <= old(self).src@.len() && final(f).spent() == old(f).spent(),
                Err(e) => r matches Err(x) && x@ == e,
            },
        decreases old(self).src@.len() - old(self).index, 6int,
    {
        let start = self.src[self.index].clone();
        self.index = self.index + 1;
        let condition = match self.parse_expr(f) {
            Ok(e) => e,
            Err(e) => {
                return Err(e);
            },
        };
        let lb = match self.consume(TokenType::LeftBrace, f) {
            Ok(t) => t,
            Err(e) => {
                return Err(e);
            },
        };
        let body = match self.parse_statement(Vec::new(), f) {
            Ok(b) => b,
            Err(e) => {
                return Err(e);
            },
        };
        let rb = match self.consume(TokenType::RightBrace, f) {
            Ok(t) => t,
            Err(e) => {
                return Err(e);
            },
        };
        let mut spans: Vec<Span> = Vec::new();
        spans.push(start.span());
        spans.push(condition.span());
        spans.push(lb.span());
        spans.push(rb.span());
        proof {
            assert(spans@ =~= seq![start@.span, expr_span(condition@), lb@.span, rb@.span]);
        }
        let span = Span::together(spans.as_slice());
        let is_if = match start.token_type() {
            TokenType::If => true,
            _ => false,
        };
        if is_if {
            Ok(Statement::If(If::from(condition, body, span)))
        } else {
            Ok(Statement::While(While::from(condition, body, span)))
        }
    }

    /// Parse statements into `buf` until the end of input or a closing brace.
    #[verifier::loop_isolation(false)]
    #[verifier::rlimit(60)]
    #[verifier::spinoff_prover]
    pub fn parse_statement(&mut self, buf: Vec<Statement>, f: &mut SpanFactory) -> (r: Result<
        Vec<Statement>,
        LangError,
    >)
        requires
            old(self).wf(),
        ensures
            final(self).src == old(self).src,
            final(self).wf(),
            match spec_parse_stmts(
                old(self).toks(),
                old(self).index as int,
                old(f).spent(),
                crate::ast::stmts_view(buf@),
            ) {
                Ok(pair) => r matches Ok(v) && crate::ast::stmts_view(v@) == pair.0 && final(self).index == pair.1 && old(self).index <= final(self).index <= old(self).src@.len()
                    && final(f).spent() == old(f).spent(),
                Err(e) => r matches Err(x) && x@ == e,
            },
        decreases old(self).src@.len() - old(self).index, 8int,
    {
        let ghost toks = self.toks();
        let ghost spent = f.spent();
        let ghost i0 = self.index as int;
        let ghost acc0 = crate::ast::stmts_view(buf@);
        let mut buf = buf;
        loop
            invariant
                self.wf(),
                self.src == old(self).src,
                f.spent() == spent,
                i0 <= self.index as int <= self.src@.len(),
                spec_parse_stmts(toks, i0, spent, acc0) == spec_parse_stmts(
                    toks,
                    self.index as int,
                    spent,
                    crate::ast::stmts_view(buf@),
                ),
            decreases self.src@.len() - self.index,
        {
            let ghost i_here = self.index as int;
            let ghost acc_here = crate::ast::stmts_view(buf@);
            if self.index >= self.src.len() {
                return Ok(buf);
            }
            let is_stop = match self.src[self.index].token_type() {
                TokenType::EOF | TokenType::RightBrace => true,
                _ => false,
            };
            if is_stop {
                return Ok(buf);
            }
            let is_ident = match self.src[self.index].token_type() {
                TokenType::Identifier(_) => true,
                _ => false,
            };
            let is_expr_start = match self.src[self.index].token_type() {
                TokenType::Number(_) | TokenType::Bool(_) | TokenType::Char(_)
                    | TokenType::LeftParen | TokenType::Bang | TokenType::Minus => true,
                _ => false,
            };
            let statement: Statement = if is_ident {
                if self.index + 2 > self.src.len() {
                    return Err(
                        LangError::UnexpectedEndOfFile {
                            span: f.fresh(self.index, self.index + 1),
                            expected: "EOF".to_owned(),
                            found: None,
                        },
                    );
                }
                let next_is_assign = match self.src[self.index + 1].token_type() {
                    TokenType::Assign => true,
                    _ => false,
                };
                if next_is_assign {
                    match self.parse_mutate(f) {
                        Ok(m) => Statement::Mutate(m),
                        Err(e) => {
                            return Err(e);
                        },
                    }
                } else {
                    match self.parse_expr(f) {
                        Ok(e) => Statement::Expr(e),
                        Err(e) => {
                            return Err(e);
                        },
                    }
                }
            } else if is_expr_start {
                match self.parse_expr(f) {
                    Ok(e) => Statement::Expr(e),
                    Err(e) => {
                        return Err(e);
                    },
                }
            } else {
                let dispatch_kind = match self.src[self.index].token_type() {
                    TokenType::Let => 0u8,
                    TokenType::While | TokenType::If => 1u8,
                    TokenType::Yield => 2u8,
                    _ => 3u8,
                };
                if dispatch_kind == 0 {
                    match self.parse_let(f) {
                        Ok(l) => Statement::Let(l),
                        Err(e) => {
                            return Err(e);
                        },
                    }
                } else if dispatch_kind == 1 {
                    match self.parse_wif(f) {
                        Ok(s) => s,
                        Err(e) => {
                            return Err(e);
                        },
                    }
                } else if dispatch_kind == 2 {
                    match self.parse_yield(f) {
                        Ok(s) => s,
                        Err(e) => {
                            return Err(e);
                        },
                    }
                } else {
                    let tok = &self.src[self.index];
                    return Err(
                        LangError::UnexpectedToken {
                            span: tok.span(),
                            tok: tok.ty(),
                            expected: "statement".to_owned(),
                        },
                    );
                }
            };
            let ghost before = buf@;
            buf.push(statement);
            proof {
                crate::ast::lemma_stmts_view_push(before, statement);
                assert(spec_parse_stmt(toks, i_here, spent) == Ok::<(StatementV, int), LangErrorV>(
                    (statement@, self.index as int),
                ));
                assert(spec_parse_stmts(toks, i_here, spent, acc_here) == spec_parse_stmts(
                    toks,
                    self.index as int,
                    spent,
                    acc_here.push(statement@),
                ));
            }
        }
    }
}

} // verus!
