//! Reading functions and their parameters.

use vstd::prelude::*;
use vstd::string::*;
use crate::cursor::{expect_token, mismatch, token_at, unexpected};
use crate::error::{ParserError, ParserErrorView};
use crate::expression::{optional_expression_view, Expression, ExpressionView};
use crate::function::{no_parameters, parameter_views, push_parameter, Function, FunctionParameter, FunctionParameterView};
use crate::grammar;
use crate::grammar::{advanced, remaining};
use crate::parser::Parser;
use crate::statement::{Statement, StatementView};
use crate::statement_parser::parse_block;
use crate::text::{optional_text, strip_first};
use crate::token::{token_views, Token, TokenKind};

verus! {

/// The return type hint before the token `open` that begins a body.
pub fn parse_return_type(tokens: &Vec<Token>, pos: usize, open: TokenKind, slice: &str) -> (r: Result<
    (Option<String>, usize),
    ParserError,
>)
    ensures
        match r {
            Ok((hint, next)) => pos < next <= tokens.len() && grammar::return_type(
                token_views(tokens@),
                pos as nat,
                open,
                slice@,
            ) == Ok::<_, ParserErrorView>((optional_text(hint), (next - pos) as nat)),
            Err(e) => grammar::return_type(token_views(tokens@), pos as nat, open, slice@)
                == Err::<(Option<Seq<char>>, nat), _>(e@),
        },
{
    match token_at(tokens, pos) {
        None => Err(ParserError::UnexpectedEndOfFile),
        Some(token) => if token.kind == TokenKind::Colon {
            let hint = expect_token(tokens, pos + 1, TokenKind::Identifier, "")?;
            expect_token(tokens, pos + 2, open, slice)?;
            Ok((Some(hint.slice.clone()), pos + 3))
        } else if token.kind == open {
            Ok((None, pos + 1))
        } else {
            Err(mismatch(open, slice, token))
        },
    }
}

/// Reads the default value of a parameter, if one is given.
pub fn parse_default(tokens: &Vec<Token>, pos: usize) -> (r: Result<
    (Option<Expression>, usize),
    ParserError,
>)
    ensures
        match r {
            Ok((default, next)) => pos <= next && grammar::default_value(
                token_views(tokens@),
                pos as nat,
            ) == Ok::<_, ParserErrorView>((optional_expression_view(default), (next - pos) as nat)),
            Err(e) => grammar::default_value(token_views(tokens@), pos as nat) == Err::<
                (Option<ExpressionView>, nat),
                _,
            >(e@),
        },
    decreases remaining(token_views(tokens@), pos as nat), 0nat,
{
    proof {
        reveal(grammar::default_value);
        reveal(grammar::expression_at);
    }
    match token_at(tokens, pos) {
        Some(token) => if token.kind == TokenKind::Equals {
            let (e, after) = Parser::parse_expression(tokens, pos + 1, 0, None)?;
            Ok((Some(e), after))
        } else {
            Ok((None, pos))
        },
        None => Ok((None, pos)),
    }
}

/// Reads the parameter that begins with `first`, a type hint or a
/// variable.
pub fn parse_parameter(tokens: &Vec<Token>, first: &Token, pos: usize) -> (r: Result<
    (FunctionParameter, usize),
    ParserError,
>)
    ensures
        match r {
            Ok((p, next)) => pos <= next && grammar::parameter(
                token_views(tokens@),
                first@,
                pos as nat,
            ) == Ok::<_, ParserErrorView>((p@, (next - pos) as nat)),
            Err(e) => grammar::parameter(token_views(tokens@), first@, pos as nat) == Err::<
                (FunctionParameterView, nat),
                _,
            >(e@),
        },
    decreases remaining(token_views(tokens@), pos as nat), 1nat,
{
    proof {
        reveal(grammar::parameter);
        reveal(grammar::default_value);
    }
    if first.kind == TokenKind::Variable {
        let (default, next) = parse_default(tokens, pos)?;
        Ok((FunctionParameter::new(strip_first(first.slice.as_str()), None, default), next))
    } else {
        let variable = expect_token(tokens, pos, TokenKind::Variable, "")?;
        let (default, next) = parse_default(tokens, pos + 1)?;
        let name = strip_first(variable.slice.as_str());
        Ok((FunctionParameter::new(name, Some(first.slice.clone()), default), next))
    }
}

/// Reads the parameters of a function up to and with the `)` of their
/// list.
pub fn parse_parameters(tokens: &Vec<Token>, pos: usize) -> (r: Result<
    (Vec<FunctionParameter>, usize),
    ParserError,
>)
    ensures
        match r {
            Ok((parameters, next)) => pos < next && grammar::parameter_list(
                token_views(tokens@),
                pos as nat,
                Seq::empty(),
            ) == Ok::<_, ParserErrorView>((parameter_views(parameters), (next - pos) as nat)),
            Err(e) => grammar::parameter_list(token_views(tokens@), pos as nat, Seq::empty())
                == Err::<(Seq<FunctionParameterView>, nat), _>(e@),
        },
    decreases remaining(token_views(tokens@), pos as nat), 0nat,
{
    let ghost t = token_views(tokens@);
    let ghost whole = grammar::parameter_list(t, pos as nat, Seq::empty());
    let mut parameters = no_parameters();
    let mut p = pos;
    loop
        invariant
            pos <= p,
            t == token_views(tokens@),
            whole == grammar::parameter_list(t, pos as nat, Seq::empty()),
            whole == advanced(
                grammar::parameter_list(t, p as nat, parameter_views(parameters)),
                (p - pos) as nat,
            ),
        decreases remaining(t, p as nat),
    {
        proof {
            reveal(grammar::parameter_list);
            reveal(grammar::parameter);
        }
        match token_at(tokens, p) {
            None => {
                return Err(ParserError::UnexpectedEndOfFile);
            },
            Some(token) => {
                if token.kind == TokenKind::RightParen {
                    return Ok((parameters, p + 1));
                } else if token.kind == TokenKind::Comma {
                    p = p + 1;
                } else if token.kind == TokenKind::Identifier || token.kind
                    == TokenKind::NullableIdentifier || token.kind == TokenKind::Variable {
                    let (parameter, next) = parse_parameter(tokens, token, p + 1)?;
                    push_parameter(&mut parameters, parameter);
                    p = next;
                } else {
                    return Err(unexpected(token));
                }
            },
        }
    }
}

/// Reads the signature of a function up to and with the token `open`
/// that begins its body.
pub fn parse_signature(tokens: &Vec<Token>, pos: usize, open: TokenKind, slice: &str) -> (r: Result<
    (Vec<FunctionParameter>, Option<String>, usize),
    ParserError,
>)
    ensures
        match r {
            Ok((parameters, hint, next)) => pos < next && grammar::signature(
                token_views(tokens@),
                pos as nat,
                open,
                slice@,
            ) == Ok::<_, ParserErrorView>(
                ((parameter_views(parameters), optional_text(hint)), (next - pos) as nat),
            ),
            Err(e) => grammar::signature(token_views(tokens@), pos as nat, open, slice@) == Err::<
                ((Seq<FunctionParameterView>, Option<Seq<char>>), nat),
                _,
            >(e@),
        },
    decreases remaining(token_views(tokens@), pos as nat), 2nat,
{
    proof {
        reveal(grammar::signature);
        reveal(grammar::parameter_list);
    }
    expect_token(tokens, pos, TokenKind::LeftParen, "(")?;
    let (parameters, a_end) = parse_parameters(tokens, pos + 1)?;
    let (hint, b_end) = parse_return_type(tokens, a_end, open, slice)?;
    Ok((parameters, hint, b_end))
}

/// Reads a named function after its keyword.
pub fn parse_function(tokens: &Vec<Token>, pos: usize) -> (r: Result<(Statement, usize), ParserError>)
    ensures
        match r {
            Ok((s, next)) => pos < next && grammar::function_statement(
                token_views(tokens@),
                pos as nat,
            ) == Ok::<_, ParserErrorView>((s@, (next - pos) as nat)),
            Err(e) => grammar::function_statement(token_views(tokens@), pos as nat) == Err::<
                (StatementView, nat),
                _,
            >(e@),
        },
    decreases remaining(token_views(tokens@), pos as nat), 8nat,
{
    proof {
        reveal(grammar::function_statement);
        reveal(grammar::signature);
        reveal(grammar::block);
    }
    let name = expect_token(tokens, pos, TokenKind::Identifier, "")?;
    let (parameters, hint, a_end) = parse_signature(tokens, pos + 1, TokenKind::LeftBrace, "{")?;
    let (body, b_end) = parse_block(tokens, a_end)?;
    let function = Function::new(
        Some(name.slice.clone()),
        parameters,
        body,
        hint,
        Vec::new(),
        None,
    );
    Ok((Statement::Function(function), b_end))
}

} // verus!
