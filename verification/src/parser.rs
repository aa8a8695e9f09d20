//! The parser: executable code that computes what the grammar defines.

use vstd::prelude::*;
use vstd::string::*;
use crate::class_parser::parse_class;
use crate::cursor::{expect_token, terminate, token_at};
use crate::error::{ParserError, ParserErrorView};
use crate::expression::{Expression, ExpressionView};
use crate::expression_parser::{continue_expression, parse_primary};
use crate::function_parser::parse_function;
use crate::grammar;
use crate::grammar::remaining;
use crate::modifier::flag_of;
use crate::statement::{no_statements, push_statement, statement_views, Statement, StatementView};
use crate::statement_parser::{
    literal_statement, parse_do, parse_flagged, parse_foreach, parse_if, parse_keyword_statement,
    parse_while,
};
use crate::token::{optional_token, token_views, Token, TokenKind, TokenView};

verus! {

/// The value of the outcome of a parse.
pub open spec fn program_view(r: Result<Vec<Statement>, ParserError>) -> Result<
    Seq<StatementView>,
    ParserErrorView,
> {
    match r {
        Ok(statements) => Ok(statement_views(statements)),
        Err(e) => Err(e@),
    }
}

/// A parser over a list of tokens.
pub struct Parser {
    tokens: Vec<Token>,
    position: usize,
}

impl Parser {
    /// The tokens that the parser was made for.
    pub closed spec fn tokens(&self) -> Seq<TokenView> {
        token_views(self.tokens@)
    }

    /// The index of the next token that has not been read.
    pub closed spec fn position(&self) -> nat {
        self.position as nat
    }

    /// A parser at the beginning of `tokens`.
    pub fn new(tokens: Vec<Token>) -> (parser: Parser)
        ensures
            parser.tokens() == token_views(tokens@),
            parser.position() == 0,
    {
        Parser { tokens, position: 0 }
    }

    /// Reads statements up to the end of the tokens. On success every
    /// token has been read; after a failure the parser stands where it
    /// stood before.
    pub fn all(&mut self) -> (r: Result<Vec<Statement>, ParserError>)
        ensures
            final(self).tokens() == old(self).tokens(),
            program_view(r) == grammar::program(
                old(self).tokens(),
                old(self).position(),
                Seq::empty(),
            ),
            match r {
                Ok(_) => final(self).position() == old(self).tokens().len(),
                Err(_) => final(self).position() == old(self).position(),
            },
    {
        let ghost t = token_views(self.tokens@);
        let ghost whole = grammar::program(t, self.position as nat, Seq::empty());
        let mut statements = no_statements();
        let mut p = self.position;
        loop
            invariant
                *self == *old(self),
                t == token_views(self.tokens@),
                whole == grammar::program(t, old(self).position as nat, Seq::empty()),
                whole == grammar::program(t, p as nat, statement_views(statements)),
            decreases remaining(t, p as nat),
        {
            match token_at(&self.tokens, p) {
                None => {
                    self.position = self.tokens.len();
                    return Ok(statements);
                },
                Some(token) => {
                    let (s, next) = Parser::match_token(&self.tokens, token, p + 1)?;
                    push_statement(&mut statements, s);
                    p = next;
                },
            }
        }
    }

    /// Requires a token of `kind` at `pos` and hands it out. `slice` is
    /// the text that the failure shows for the required token.
    pub fn expect_token<'a>(
        tokens: &'a Vec<Token>,
        pos: usize,
        kind: TokenKind,
        slice: &str,
    ) -> (r: Result<&'a Token, ParserError>)
        ensures
            match r {
                Ok(token) => pos < tokens.len() && *token == tokens@[pos as int] && token.kind
                    == kind && grammar::expected(token_views(tokens@), pos as nat, kind, slice@)
                    is None,
                Err(e) => grammar::expected(token_views(tokens@), pos as nat, kind, slice@)
                    == Some(e@),
            },
    {
        expect_token(tokens, pos, kind, slice)
    }

    /// Reads the statement that begins with `token`; `pos` is the
    /// position after that token. It hands out the statement and the
    /// position after it.
    pub fn match_token(tokens: &Vec<Token>, token: &Token, pos: usize) -> (r: Result<
        (Statement, usize),
        ParserError,
    >)
        ensures
            match r {
                Ok((s, next)) => pos <= next && grammar::statement(
                    token_views(tokens@),
                    token@,
                    pos as nat,
                ) == Ok::<_, ParserErrorView>((s@, (next - pos) as nat)),
                Err(e) => grammar::statement(token_views(tokens@), token@, pos as nat) == Err::<
                    (StatementView, nat),
                    _,
                >(e@),
            },
        decreases remaining(token_views(tokens@), pos as nat), 9nat,
    {
        proof {
            reveal(grammar::statement);
            reveal(grammar::keyword_statement);
            reveal(grammar::flagged);
            reveal(grammar::expression);
            reveal(grammar::while_statement);
            reveal(grammar::do_statement);
            reveal(grammar::foreach_statement);
            reveal(grammar::if_statement);
            reveal(grammar::function_statement);
            reveal(grammar::class_statement);
        }
        match token.kind {
            TokenKind::OpenTag => Ok((Statement::OpenTag, pos)),
            TokenKind::DocBlockComment => Ok((Statement::DocBlock(token.slice.clone()), pos)),
            TokenKind::Break
            | TokenKind::Continue
            | TokenKind::Use
            | TokenKind::Echo
            | TokenKind::Return => parse_keyword_statement(tokens, token.kind, pos),
            TokenKind::While => parse_while(tokens, pos),
            TokenKind::Do => parse_do(tokens, pos),
            TokenKind::Foreach => parse_foreach(tokens, pos),
            TokenKind::If => parse_if(tokens, pos),
            TokenKind::Function => parse_function(tokens, pos),
            TokenKind::Class => parse_class(tokens, pos),
            TokenKind::Public
            | TokenKind::Protected
            | TokenKind::Private
            | TokenKind::Final
            | TokenKind::Abstract
            | TokenKind::Static => match flag_of(token.kind) {
                Some(flag) => parse_flagged(tokens, flag, pos),
                None => Err(ParserError::Unknown),
            },
            TokenKind::String | TokenKind::Integer | TokenKind::Float => literal_statement(
                tokens,
                token,
                pos,
            ),
            _ => {
                let (e, after) = Parser::parse_expression(tokens, pos, 0, Some(token))?;
                terminate(tokens, after, Statement::Expression(e))
            },
        }
    }

    /// Reads an expression with the least binding power `bp`: the one
    /// that begins with `maybe_token`, where a token is given and `pos` is
    /// the position after it, and else the one that begins at `pos`. It
    /// hands out the expression and the position after it.
    pub fn parse_expression(
        tokens: &Vec<Token>,
        pos: usize,
        bp: u8,
        maybe_token: Option<&Token>,
    ) -> (r: Result<(Expression, usize), ParserError>)
        ensures
            match r {
                Ok((e, next)) => pos <= next && grammar::next_expression(
                    token_views(tokens@),
                    optional_token(maybe_token),
                    pos as nat,
                    bp,
                ) == Ok::<_, ParserErrorView>((e@, (next - pos) as nat)),
                Err(e) => grammar::next_expression(
                    token_views(tokens@),
                    optional_token(maybe_token),
                    pos as nat,
                    bp,
                ) == Err::<(ExpressionView, nat), _>(e@),
            },
        decreases
            remaining(token_views(tokens@), pos as nat),
            (if maybe_token is Some {
                5nat
            } else {
                1nat
            }),
    {
        proof {
            reveal(grammar::expression_at);
            reveal(grammar::expression);
            reveal(grammar::primary);
            reveal(grammar::continued);
        }
        let first = match maybe_token {
            Some(token) => token,
            None => match token_at(tokens, pos) {
                None => {
                    return Err(ParserError::UnexpectedEndOfFile);
                },
                Some(token) => {
                    return Parser::parse_expression(tokens, pos + 1, bp, Some(token));
                },
            },
        };
        let (lhs, after) = parse_primary(tokens, first, pos)?;
        continue_expression(tokens, lhs, after, bp)
    }
}

} // verus!
