//! Reading blocks, loops and conditionals.

use vstd::prelude::*;
use crate::cursor::{expect_token, terminate, token_at, unexpected};
use crate::error::{ParserError, ParserErrorView};
use crate::expression::{optional_expression_view, Expression, ExpressionView};
use crate::expression_parser::parse_literal;
use crate::flag::Flag;
use crate::grammar;
use crate::grammar::{advanced, remaining};
use crate::if_statement::{optional_statement_view, Else, If};
use crate::modifier::attach_flag;
use crate::parser::Parser;
use crate::statement::{no_statements, push_statement, statement_views, Statement, StatementView};
use crate::token::{token_views, Token, TokenKind};

verus! {

/// The key and the value variable of a `foreach`.
pub fn loop_variables(e: Expression) -> (r: Result<(Option<Expression>, Expression), ParserError>)
    ensures
        match r {
            Ok((key, value)) => grammar::loop_variables(e@) == Some(
                (optional_expression_view(key), value@),
            ),
            Err(err) => grammar::loop_variables(e@) is None
                && err@ == ParserErrorView::UnexpectedExpression(e@),
        },
{
    match e {
        Expression::Variable(name) => Ok((None, Expression::Variable(name))),
        Expression::ArrayItem { key, value } => Ok((Some(*key), *value)),
        other => Err(ParserError::UnexpectedExpression(other)),
    }
}

/// Reads statements up to and with the `}` that ends their block.
pub fn parse_block(tokens: &Vec<Token>, pos: usize) -> (r: Result<(Vec<Statement>, usize), ParserError>)
    ensures
        match r {
            Ok((body, next)) => pos < next && grammar::block(
                token_views(tokens@),
                pos as nat,
                Seq::empty(),
            ) == Ok::<_, ParserErrorView>((statement_views(body), (next - pos) as nat)),
            Err(e) => grammar::block(token_views(tokens@), pos as nat, Seq::empty()) == Err::<
                (Seq<StatementView>, nat),
                _,
            >(e@),
        },
    decreases remaining(token_views(tokens@), pos as nat), 0nat,
{
    let ghost t = token_views(tokens@);
    let ghost whole = grammar::block(t, pos as nat, Seq::empty());
    let mut body = no_statements();
    let mut p = pos;
    loop
        invariant
            pos <= p,
            t == token_views(tokens@),
            whole == grammar::block(t, pos as nat, Seq::empty()),
            whole == advanced(grammar::block(t, p as nat, statement_views(body)), (p - pos) as nat),
        decreases remaining(t, p as nat),
    {
        proof {
            reveal(grammar::block);
            reveal(grammar::statement);
        }
        match token_at(tokens, p) {
            None => {
                return Err(ParserError::UnexpectedEndOfFile);
            },
            Some(token) => {
                if token.kind == TokenKind::RightBrace {
                    return Ok((body, p + 1));
                }
                let (s, next) = Parser::match_token(tokens, token, p + 1)?;
                push_statement(&mut body, s);
                p = next;
            },
        }
    }
}

/// Reads `{`, statements and `}`.
pub fn parse_braced(tokens: &Vec<Token>, pos: usize) -> (r: Result<(Vec<Statement>, usize), ParserError>)
    ensures
        match r {
            Ok((body, next)) => pos < next && grammar::braced(token_views(tokens@), pos as nat)
                == Ok::<_, ParserErrorView>((statement_views(body), (next - pos) as nat)),
            Err(e) => grammar::braced(token_views(tokens@), pos as nat) == Err::<
                (Seq<StatementView>, nat),
                _,
            >(e@),
        },
    decreases remaining(token_views(tokens@), pos as nat), 7nat,
{
    proof {
        reveal(grammar::braced);
        reveal(grammar::block);
    }
    expect_token(tokens, pos, TokenKind::LeftBrace, "{")?;
    parse_block(tokens, pos + 1)
}

/// Reads `(`, an expression and `)`.
pub fn parse_condition(tokens: &Vec<Token>, pos: usize) -> (r: Result<(Expression, usize), ParserError>)
    ensures
        match r {
            Ok((e, next)) => pos < next && grammar::condition(token_views(tokens@), pos as nat)
                == Ok::<_, ParserErrorView>((e@, (next - pos) as nat)),
            Err(e) => grammar::condition(token_views(tokens@), pos as nat) == Err::<
                (ExpressionView, nat),
                _,
            >(e@),
        },
    decreases remaining(token_views(tokens@), pos as nat), 7nat,
{
    proof {
        reveal(grammar::condition);
        reveal(grammar::expression_at);
    }
    expect_token(tokens, pos, TokenKind::LeftParen, "(")?;
    let (e, after) = Parser::parse_expression(tokens, pos + 1, 0, None)?;
    expect_token(tokens, after, TokenKind::RightParen, ")")?;
    Ok((e, after + 1))
}

/// Reads a `while` loop after its keyword.
pub fn parse_while(tokens: &Vec<Token>, pos: usize) -> (r: Result<(Statement, usize), ParserError>)
    ensures
        match r {
            Ok((s, next)) => pos < next && grammar::while_statement(
                token_views(tokens@),
                pos as nat,
            ) == Ok::<_, ParserErrorView>((s@, (next - pos) as nat)),
            Err(e) => grammar::while_statement(token_views(tokens@), pos as nat) == Err::<
                (StatementView, nat),
                _,
            >(e@),
        },
    decreases remaining(token_views(tokens@), pos as nat), 8nat,
{
    proof {
        reveal(grammar::while_statement);
        reveal(grammar::condition);
        reveal(grammar::braced);
    }
    let (condition, a_end) = parse_condition(tokens, pos)?;
    let (body, b_end) = parse_braced(tokens, a_end)?;
    Ok((Statement::While { condition, body }, b_end))
}

/// Reads a `do` loop after its keyword.
pub fn parse_do(tokens: &Vec<Token>, pos: usize) -> (r: Result<(Statement, usize), ParserError>)
    ensures
        match r {
            Ok((s, next)) => pos < next && grammar::do_statement(token_views(tokens@), pos as nat)
                == Ok::<_, ParserErrorView>((s@, (next - pos) as nat)),
            Err(e) => grammar::do_statement(token_views(tokens@), pos as nat) == Err::<
                (StatementView, nat),
                _,
            >(e@),
        },
    decreases remaining(token_views(tokens@), pos as nat), 8nat,
{
    proof {
        reveal(grammar::do_statement);
        reveal(grammar::braced);
        reveal(grammar::condition);
    }
    let (body, a_end) = parse_braced(tokens, pos)?;
    expect_token(tokens, a_end, TokenKind::While, "while")?;
    let (condition, b_end) = parse_condition(tokens, a_end + 1)?;
    terminate(tokens, b_end, Statement::DoWhile { condition, body })
}

/// Reads the head of a `foreach`: `(expression as variables)`.
#[verifier::rlimit(40)]
pub fn parse_foreach_head(tokens: &Vec<Token>, pos: usize) -> (r: Result<
    (Expression, Option<Expression>, Expression, usize),
    ParserError,
>)
    ensures
        match r {
            Ok((expression, key, value, next)) => pos < next && grammar::foreach_head(
                token_views(tokens@),
                pos as nat,
            ) == Ok::<_, ParserErrorView>(
                ((expression@, optional_expression_view(key), value@), (next - pos) as nat),
            ),
            Err(e) => grammar::foreach_head(token_views(tokens@), pos as nat) == Err::<
                ((ExpressionView, Option<ExpressionView>, ExpressionView), nat),
                _,
            >(e@),
        },
    decreases remaining(token_views(tokens@), pos as nat), 7nat,
{
    proof {
        reveal(grammar::foreach_head);
        reveal(grammar::expression_at);
    }
    expect_token(tokens, pos, TokenKind::LeftParen, "(")?;
    let (expression, a_end) = Parser::parse_expression(tokens, pos + 1, 0, None)?;
    expect_token(tokens, a_end, TokenKind::As, "as")?;
    let (variables, b_end) = Parser::parse_expression(tokens, a_end + 1, 0, None)?;
    let (key_var, value_var) = loop_variables(variables)?;
    expect_token(tokens, b_end, TokenKind::RightParen, ")")?;
    Ok((expression, key_var, value_var, b_end + 1))
}

/// Reads a `foreach` loop after its keyword.
pub fn parse_foreach(tokens: &Vec<Token>, pos: usize) -> (r: Result<(Statement, usize), ParserError>)
    ensures
        match r {
            Ok((s, next)) => pos < next && grammar::foreach_statement(
                token_views(tokens@),
                pos as nat,
            ) == Ok::<_, ParserErrorView>((s@, (next - pos) as nat)),
            Err(e) => grammar::foreach_statement(token_views(tokens@), pos as nat) == Err::<
                (StatementView, nat),
                _,
            >(e@),
        },
    decreases remaining(token_views(tokens@), pos as nat), 8nat,
{
    proof {
        reveal(grammar::foreach_statement);
        reveal(grammar::foreach_head);
        reveal(grammar::braced);
    }
    let (expression, key_var, value_var, a_end) = parse_foreach_head(tokens, pos)?;
    let (body, b_end) = parse_braced(tokens, a_end)?;
    Ok((Statement::Foreach { expression, key_var, value_var, body }, b_end))
}

/// Reads one `elseif` arm after its keyword.
pub fn parse_else_if(tokens: &Vec<Token>, pos: usize) -> (r: Result<(Statement, usize), ParserError>)
    ensures
        match r {
            Ok((s, next)) => pos < next && grammar::else_if_arm(token_views(tokens@), pos as nat)
                == Ok::<_, ParserErrorView>((s@, (next - pos) as nat)),
            Err(e) => grammar::else_if_arm(token_views(tokens@), pos as nat) == Err::<
                (StatementView, nat),
                _,
            >(e@),
        },
    decreases remaining(token_views(tokens@), pos as nat), 8nat,
{
    proof {
        reveal(grammar::else_if_arm);
        reveal(grammar::condition);
        reveal(grammar::braced);
    }
    let (condition, a_end) = parse_condition(tokens, pos)?;
    let (body, b_end) = parse_braced(tokens, a_end)?;
    let arm = If::new(condition, body, no_statements(), None);
    Ok((Statement::ElseIf(arm), b_end))
}

/// Reads the arms and the `else` that follow the first body of an `if`.
#[verifier::rlimit(40)]
pub fn parse_else_chain(tokens: &Vec<Token>, pos: usize) -> (r: Result<
    (Vec<Statement>, Option<Box<Statement>>, usize),
    ParserError,
>)
    ensures
        match r {
            Ok((arms, last, next)) => pos <= next && grammar::else_chain(
                token_views(tokens@),
                pos as nat,
                Seq::empty(),
            ) == Ok::<_, ParserErrorView>(
                ((statement_views(arms), optional_statement_view(last)), (next - pos) as nat),
            ),
            Err(e) => grammar::else_chain(token_views(tokens@), pos as nat, Seq::empty()) == Err::<
                ((Seq<StatementView>, Option<Box<StatementView>>), nat),
                _,
            >(e@),
        },
    decreases remaining(token_views(tokens@), pos as nat), 0nat,
{
    let ghost t = token_views(tokens@);
    let ghost whole = grammar::else_chain(t, pos as nat, Seq::empty());
    let mut arms = no_statements();
    let mut p = pos;
    loop
        invariant
            pos <= p,
            t == token_views(tokens@),
            whole == grammar::else_chain(t, pos as nat, Seq::empty()),
            whole == advanced(
                grammar::else_chain(t, p as nat, statement_views(arms)),
                (p - pos) as nat,
            ),
        decreases remaining(t, p as nat),
    {
        proof {
            reveal(grammar::else_chain);
            reveal(grammar::else_if_arm);
            reveal(grammar::braced);
        }
        match token_at(tokens, p) {
            None => {
                return Ok((arms, None, p));
            },
            Some(token) => {
                if token.kind == TokenKind::ElseIf {
                    let (arm, next) = parse_else_if(tokens, p + 1)?;
                    push_statement(&mut arms, arm);
                    p = next;
                } else if token.kind == TokenKind::Else {
                    let chained = match token_at(tokens, p + 1) {
                        Some(next) => next.kind == TokenKind::If,
                        None => false,
                    };
                    if chained {
                        let (arm, next) = parse_else_if(tokens, p + 2)?;
                        push_statement(&mut arms, arm);
                        p = next;
                    } else {
                        let (body, next) = parse_braced(tokens, p + 1)?;
                        let last = Statement::Else(Else::new(body));
                        return Ok((arms, Some(Box::new(last)), next));
                    }
                } else {
                    return Err(unexpected(token));
                }
            },
        }
    }
}

/// Reads an `if` after its keyword.
pub fn parse_if(tokens: &Vec<Token>, pos: usize) -> (r: Result<(Statement, usize), ParserError>)
    ensures
        match r {
            Ok((s, next)) => pos < next && grammar::if_statement(token_views(tokens@), pos as nat)
                == Ok::<_, ParserErrorView>((s@, (next - pos) as nat)),
            Err(e) => grammar::if_statement(token_views(tokens@), pos as nat) == Err::<
                (StatementView, nat),
                _,
            >(e@),
        },
    decreases remaining(token_views(tokens@), pos as nat), 8nat,
{
    proof {
        reveal(grammar::if_statement);
        reveal(grammar::condition);
        reveal(grammar::braced);
        reveal(grammar::else_chain);
    }
    let (condition, a_end) = parse_condition(tokens, pos)?;
    let (body, b_end) = parse_braced(tokens, a_end)?;
    let (arms, last, c_end) = parse_else_chain(tokens, b_end)?;
    Ok((Statement::If(If::new(condition, body, arms, last)), c_end))
}


/// Makes the statement that a literal token is by itself.
pub fn literal_statement(tokens: &Vec<Token>, first: &Token, pos: usize) -> (r: Result<
    (Statement, usize),
    ParserError,
>)
    ensures
        match r {
            Ok((s, next)) => pos <= next && grammar::literal_statement(
                token_views(tokens@),
                first@,
                pos as nat,
            ) == Ok::<_, ParserErrorView>((s@, (next - pos) as nat)),
            Err(e) => grammar::literal_statement(token_views(tokens@), first@, pos as nat)
                == Err::<(StatementView, nat), _>(e@),
        },
{
    let e = parse_literal(first)?;
    let after = if first.kind == TokenKind::String && pos < tokens.len() {
        pos + 1
    } else {
        pos
    };
    Ok((Statement::Expression(e), after))
}

/// Reads the statement that begins with `break`, `continue`, `use`,
/// `echo` or `return`, after its keyword.
pub fn parse_keyword_statement(tokens: &Vec<Token>, keyword: TokenKind, pos: usize) -> (r: Result<
    (Statement, usize),
    ParserError,
>)
    ensures
        match r {
            Ok((s, next)) => pos <= next && grammar::keyword_statement(
                token_views(tokens@),
                keyword,
                pos as nat,
            ) == Ok::<_, ParserErrorView>((s@, (next - pos) as nat)),
            Err(e) => grammar::keyword_statement(token_views(tokens@), keyword, pos as nat)
                == Err::<(StatementView, nat), _>(e@),
        },
    decreases remaining(token_views(tokens@), pos as nat), 8nat,
{
    proof {
        reveal(grammar::keyword_statement);
        reveal(grammar::expression_at);
    }
    if keyword == TokenKind::Break {
        return terminate(tokens, pos, Statement::Break);
    }
    if keyword == TokenKind::Continue {
        match token_at(tokens, pos) {
            None => {
                return Err(ParserError::UnexpectedEndOfFile);
            },
            Some(next) => {
                if next.kind == TokenKind::SemiColon {
                    return Ok((Statement::Continue(None), pos + 1));
                }
            },
        }
    }
    let (e, after) = Parser::parse_expression(tokens, pos, 0, None)?;
    if keyword == TokenKind::Continue {
        terminate(tokens, after, Statement::Continue(Some(e)))
    } else if keyword == TokenKind::Echo {
        terminate(tokens, after, Statement::Echo(e))
    } else if keyword == TokenKind::Return {
        terminate(tokens, after, Statement::Return(e))
    } else {
        match e {
            Expression::Identifier(name) => terminate(
                tokens,
                after,
                Statement::Use(Expression::Identifier(name)),
            ),
            other => Err(ParserError::UnexpectedExpression(other)),
        }
    }
}

/// Reads the statement that follows a modifier and puts the modifier's
/// flag on it.
pub fn parse_flagged(tokens: &Vec<Token>, flag: Flag, pos: usize) -> (r: Result<
    (Statement, usize),
    ParserError,
>)
    ensures
        match r {
            Ok((s, next)) => pos < next && grammar::flagged(token_views(tokens@), flag, pos as nat)
                == Ok::<_, ParserErrorView>((s@, (next - pos) as nat)),
            Err(e) => grammar::flagged(token_views(tokens@), flag, pos as nat) == Err::<
                (StatementView, nat),
                _,
            >(e@),
        },
    decreases remaining(token_views(tokens@), pos as nat), 8nat,
{
    proof {
        reveal(grammar::flagged);
        reveal(grammar::statement);
    }
    match token_at(tokens, pos) {
        None => Err(ParserError::UnexpectedEndOfFile),
        Some(next) => {
            let (inner, after) = Parser::match_token(tokens, next, pos + 1)?;
            let s = attach_flag(flag, inner)?;
            Ok((s, after))
        },
    }
}

} // verus!
