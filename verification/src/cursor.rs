//! Reading single tokens.

use vstd::prelude::*;
use crate::error::{ParserError, ParserErrorView};
use crate::grammar;
use crate::statement::{Statement, StatementView};
use crate::token::{token_views, Token, TokenKind};

verus! {

/// The token at `pos`, if the tokens reach that far.
pub fn token_at(tokens: &Vec<Token>, pos: usize) -> (r: Option<&Token>)
    ensures
        match r {
            Some(token) => pos < tokens.len() && *token == tokens@[pos as int]
                && grammar::token_at(token_views(tokens@), pos as nat) == Some(token@),
            None => pos >= tokens.len() && grammar::token_at(token_views(tokens@), pos as nat)
                is None,
        },
{
    if pos < tokens.len() {
        Some(&tokens[pos])
    } else {
        None
    }
}

/// The failure for a token that no rule accepts.
pub fn unexpected(token: &Token) -> (e: ParserError)
    ensures
        e@ == ParserErrorView::UnexpectedToken(token.kind, token.slice@),
{
    ParserError::UnexpectedToken(token.kind, token.slice.clone())
}

/// The failure for a token of another kind than the one required.
pub fn mismatch(kind: TokenKind, slice: &str, token: &Token) -> (e: ParserError)
    ensures
        e@ == (ParserErrorView::ExpectedToken {
            expected_type: kind,
            expected_slice: slice@,
            got_type: token.kind,
            got_slice: token.slice@,
        }),
{
    ParserError::ExpectedToken {
        expected_type: kind,
        expected_slice: slice.to_owned(),
        got_type: token.kind,
        got_slice: token.slice.clone(),
    }
}

/// Requires a token of `kind` at `pos` and hands it out.
pub fn expect_token<'a>(tokens: &'a Vec<Token>, pos: usize, kind: TokenKind, slice: &str) -> (r: Result<
    &'a Token,
    ParserError,
>)
    ensures
        match r {
            Ok(token) => pos < tokens.len() && *token == tokens@[pos as int] && token.kind == kind
                && grammar::expected(token_views(tokens@), pos as nat, kind, slice@) is None,
            Err(e) => grammar::expected(token_views(tokens@), pos as nat, kind, slice@) == Some(
                e@,
            ),
        },
{
    match token_at(tokens, pos) {
        None => Err(ParserError::UnexpectedEndOfFile),
        Some(token) => if token.kind != kind {
            Err(mismatch(kind, slice, token))
        } else {
            Ok(token)
        },
    }
}

/// Requires the `;` that ends the statement `s` at `pos`.
pub fn terminate(tokens: &Vec<Token>, pos: usize, s: Statement) -> (r: Result<
    (Statement, usize),
    ParserError,
>)
    ensures
        match r {
            Ok((out, next)) => out == s && pos < tokens.len() && next == pos + 1
                && grammar::terminated(token_views(tokens@), pos as nat, s@) == Ok::<
                _,
                ParserErrorView,
            >((s@, 1nat)),
            Err(e) => grammar::terminated(token_views(tokens@), pos as nat, s@) == Err::<
                (StatementView, nat),
                _,
            >(e@),
        },
{
    match expect_token(tokens, pos, TokenKind::SemiColon, ";") {
        Err(e) => Err(e),
        Ok(_) => Ok((s, pos + 1)),
    }
}

} // verus!
