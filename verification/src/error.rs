//! The language's error taxonomy: every stage of the pipeline reports a kind
//! and the span of the offending source range.

use vstd::prelude::*;
use crate::span::Span;
use crate::token::{TokenType, TokenTypeV};

verus! {

/// An error from lexing, parsing or lowering, carrying the span of the
/// offending source range.
#[derive(Debug)]
pub enum LangError {
    InvalidLexeme { span: Span, lexeme: String },
    InvalidCharacterLiteral { span: Span, char_literal: String },
    InvalidIntegerLiteral { span: Span, num_literal: String },
    InvalidIdentifier { span: Span, id_literal: String },
    InvalidLiteral { span: Span, invalid_literal: TokenType },
    InvalidUnaryOperator { span: Span, op: TokenType },
    InvalidBinaryOperator { span: Span, op: TokenType },
    UnmatchedDelimiter { span: Span, expected: TokenType, found: TokenType },
    UnexpectedEndOfFile { span: Span, expected: String, found: Option<String> },
    UninitialisedVariable { span: Span, name: String },
    UninitialisedPointer { span: Span, name: String },
    UnexpectedToken { span: Span, tok: TokenType, expected: String },
    ExpectedToken { span: Span, expected: TokenType, found: TokenType },
    NullValueExpression { span: Span },
}

/// The mathematical value of a [`LangError`].
pub ghost enum LangErrorV {
    InvalidLexeme { span: Span, lexeme: Seq<char> },
    InvalidCharacterLiteral { span: Span, char_literal: Seq<char> },
    InvalidIntegerLiteral { span: Span, num_literal: Seq<char> },
    InvalidIdentifier { span: Span, id_literal: Seq<char> },
    InvalidLiteral { span: Span, invalid_literal: TokenTypeV },
    InvalidUnaryOperator { span: Span, op: TokenTypeV },
    InvalidBinaryOperator { span: Span, op: TokenTypeV },
    UnmatchedDelimiter { span: Span, expected: TokenTypeV, found: TokenTypeV },
    UnexpectedEndOfFile { span: Span, expected: Seq<char>, found: Option<Seq<char>> },
    UninitialisedVariable { span: Span, name: Seq<char> },
    UninitialisedPointer { span: Span, name: Seq<char> },
    UnexpectedToken { span: Span, tok: TokenTypeV, expected: Seq<char> },
    ExpectedToken { span: Span, expected: TokenTypeV, found: TokenTypeV },
    NullValueExpression { span: Span },
}

impl View for LangError {
    type V = LangErrorV;

    open spec fn view(&self) -> LangErrorV {
        match self {
            LangError::InvalidLexeme { span, lexeme } => LangErrorV::InvalidLexeme {
                span: *span,
                lexeme: lexeme@,
            },
            LangError::InvalidCharacterLiteral { span, char_literal } => {
                LangErrorV::InvalidCharacterLiteral { span: *span, char_literal: char_literal@ }
            },
            LangError::InvalidIntegerLiteral { span, num_literal } => {
                LangErrorV::InvalidIntegerLiteral { span: *span, num_literal: num_literal@ }
            },
            LangError::InvalidIdentifier { span, id_literal } => LangErrorV::InvalidIdentifier {
                span: *span,
                id_literal: id_literal@,
            },
            LangError::InvalidLiteral { span, invalid_literal } => LangErrorV::InvalidLiteral {
                span: *span,
                invalid_literal: invalid_literal@,
            },
            LangError::InvalidUnaryOperator { span, op } => LangErrorV::InvalidUnaryOperator {
                span: *span,
                op: op@,
            },
            LangError::InvalidBinaryOperator { span, op } => LangErrorV::InvalidBinaryOperator {
                span: *span,
                op: op@,
            },
            LangError::UnmatchedDelimiter { span, expected, found } => {
                LangErrorV::UnmatchedDelimiter { span: *span, expected: expected@, found: found@ }
            },
            LangError::UnexpectedEndOfFile { span, expected, found } => {
                LangErrorV::UnexpectedEndOfFile {
                    span: *span,
                    expected: expected@,
                    found: match found {
                        Some(s) => Some(s@),
                        None => None,
                    },
                }
            },
            LangError::UninitialisedVariable { span, name } => LangErrorV::UninitialisedVariable {
                span: *span,
                name: name@,
            },
            LangError::UninitialisedPointer { span, name } => LangErrorV::UninitialisedPointer {
                span: *span,
                name: name@,
            },
            LangError::UnexpectedToken { span, tok, expected } => LangErrorV::UnexpectedToken {
                span: *span,
                tok: tok@,
                expected: expected@,
            },
            LangError::ExpectedToken { span, expected, found } => LangErrorV::ExpectedToken {
                span: *span,
                expected: expected@,
                found: found@,
            },
            LangError::NullValueExpression { span } => LangErrorV::NullValueExpression {
                span: *span,
            },
        }
    }
}

impl LangError {
    /// The span of the offending source range.
    pub fn span(&self) -> (r: Span)
        ensures
            r == self@.span_of(),
    {
        match self {
            LangError::InvalidLexeme { span, .. } => *span,
            LangError::InvalidCharacterLiteral { span, .. } => *span,
            LangError::InvalidIntegerLiteral { span, .. } => *span,
            LangError::InvalidIdentifier { span, .. } => *span,
            LangError::InvalidLiteral { span, .. } => *span,
            LangError::InvalidUnaryOperator { span, .. } => *span,
            LangError::InvalidBinaryOperator { span, .. } => *span,
            LangError::UnmatchedDelimiter { span, .. } => *span,
            LangError::UnexpectedEndOfFile { span, .. } => *span,
            LangError::UninitialisedVariable { span, .. } => *span,
            LangError::UninitialisedPointer { span, .. } => *span,
            LangError::UnexpectedToken { span, .. } => *span,
            LangError::ExpectedToken { span, .. } => *span,
            LangError::NullValueExpression { span } => *span,
        }
    }
}

impl LangErrorV {
    /// The span any error variant carries.
    pub open spec fn span_of(self) -> Span {
        match self {
            LangErrorV::InvalidLexeme { span, .. } => span,
            LangErrorV::InvalidCharacterLiteral { span, .. } => span,
            LangErrorV::InvalidIntegerLiteral { span, .. } => span,
            LangErrorV::InvalidIdentifier { span, .. } => span,
            LangErrorV::InvalidLiteral { span, .. } => span,
            LangErrorV::InvalidUnaryOperator { span, .. } => span,
            LangErrorV::InvalidBinaryOperator { span, .. } => span,
            LangErrorV::UnmatchedDelimiter { span, .. } => span,
            LangErrorV::UnexpectedEndOfFile { span, .. } => span,
            LangErrorV::UninitialisedVariable { span, .. } => span,
            LangErrorV::UninitialisedPointer { span, .. } => span,
            LangErrorV::UnexpectedToken { span, .. } => span,
            LangErrorV::ExpectedToken { span, .. } => span,
            LangErrorV::NullValueExpression { span } => span,
        }
    }
}

} // verus!
