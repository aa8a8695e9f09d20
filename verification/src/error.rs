//! The ways in which parsing fails.

use vstd::prelude::*;
use vstd::std_specs::convert::FromSpecImpl;
use std::num::ParseIntError;
use crate::expression::{Expression, ExpressionView};
use crate::flag::Flag;
use crate::statement::{Statement, StatementView};
use crate::token::TokenKind;

verus! {

/// A failure of the parser. The first failure ends the parse.
#[derive(Debug, PartialEq)]
pub enum ParserError {
    /// The source does not begin as a PHP file.
    InvalidFileType,
    /// An integer literal denotes no 64-bit integer.
    IntegerParserError,
    /// A float literal denotes no number.
    FloatParserError,
    /// The flag cannot stand on the declaration that the text describes.
    FlagNotAllowed(Flag, String),
    /// The declaration carries the flag already.
    DuplicateFlag(Flag),
    /// The statement cannot stand where it was found.
    UnexpectedStatement(Statement),
    /// The expression has not the shape that its place asks for.
    UnexpectedExpression(Expression),
    MethodAlreadyExists(String),
    PropertyAlreadyExists(String),
    /// The grammar asked for one token and found another.
    ExpectedToken {
        expected_type: TokenKind,
        expected_slice: String,
        got_type: TokenKind,
        got_slice: String,
    },
    /// No rule of the grammar accepts the token where it was found.
    UnexpectedToken(TokenKind, String),
    /// The tokens ran out inside a construct.
    UnexpectedEndOfFile,
    /// The declaration that the text describes can carry this flag only.
    CanOnlyHaveFlag(Flag, String),
    Unknown,
}

/// The mathematical value of a [`ParserError`].
pub enum ParserErrorView {
    InvalidFileType,
    IntegerParserError,
    FloatParserError,
    FlagNotAllowed(Flag, Seq<char>),
    DuplicateFlag(Flag),
    UnexpectedStatement(StatementView),
    UnexpectedExpression(ExpressionView),
    MethodAlreadyExists(Seq<char>),
    PropertyAlreadyExists(Seq<char>),
    ExpectedToken {
        expected_type: TokenKind,
        expected_slice: Seq<char>,
        got_type: TokenKind,
        got_slice: Seq<char>,
    },
    UnexpectedToken(TokenKind, Seq<char>),
    UnexpectedEndOfFile,
    CanOnlyHaveFlag(Flag, Seq<char>),
    Unknown,
}

impl View for ParserError {
    type V = ParserErrorView;

    open spec fn view(&self) -> ParserErrorView {
        match self {
            ParserError::InvalidFileType => ParserErrorView::InvalidFileType,
            ParserError::IntegerParserError => ParserErrorView::IntegerParserError,
            ParserError::FloatParserError => ParserErrorView::FloatParserError,
            ParserError::FlagNotAllowed(flag, text) => ParserErrorView::FlagNotAllowed(*flag, text@),
            ParserError::DuplicateFlag(flag) => ParserErrorView::DuplicateFlag(*flag),
            ParserError::UnexpectedStatement(s) => ParserErrorView::UnexpectedStatement(s@),
            ParserError::UnexpectedExpression(e) => ParserErrorView::UnexpectedExpression(e@),
            ParserError::MethodAlreadyExists(name) => ParserErrorView::MethodAlreadyExists(name@),
            ParserError::PropertyAlreadyExists(name) => ParserErrorView::PropertyAlreadyExists(
                name@,
            ),
            ParserError::ExpectedToken { expected_type, expected_slice, got_type, got_slice } => {
                ParserErrorView::ExpectedToken {
                    expected_type: *expected_type,
                    expected_slice: expected_slice@,
                    got_type: *got_type,
                    got_slice: got_slice@,
                }
            },
            ParserError::UnexpectedToken(kind, slice) => ParserErrorView::UnexpectedToken(
                *kind,
                slice@,
            ),
            ParserError::UnexpectedEndOfFile => ParserErrorView::UnexpectedEndOfFile,
            ParserError::CanOnlyHaveFlag(flag, text) => ParserErrorView::CanOnlyHaveFlag(
                *flag,
                text@,
            ),
            ParserError::Unknown => ParserErrorView::Unknown,
        }
    }
}

impl From<ParseIntError> for ParserError {
    fn from(error: ParseIntError) -> (r: ParserError) {
        ParserError::IntegerParserError
    }
}

impl FromSpecImpl<ParseIntError> for ParserError {
    open spec fn obeys_from_spec() -> bool {
        true
    }

    open spec fn from_spec(error: ParseIntError) -> ParserError {
        ParserError::IntegerParserError
    }
}

} // verus!
