//! Reading expressions.

use vstd::prelude::*;
use vstd::string::*;
use crate::binding_power::BindingPower;
use crate::cursor::{expect_token, token_at, unexpected};
use crate::error::{ParserError, ParserErrorView};
use crate::expression::{expression_views, no_expressions, push_expression, Expression, ExpressionView};
use crate::flag::{Flag, Flaggable};
use crate::function::{ClosureType, Function};
use crate::function_parser::parse_signature;
use crate::grammar;
use crate::grammar::{advanced, remaining};
use crate::number::{next_index, parse_integer, truncate};
use crate::parser::Parser;
use crate::statement::{no_statements, push_statement, statement_views, Statement, StatementView};
use crate::statement_parser::parse_block;
use crate::text::{strip_first, strip_quotes};
use crate::token::{token_views, Token, TokenKind};

verus! {

/// What `new` makes of the expression that follows it.
pub fn instantiate(e: Expression) -> (r: Result<Expression, ParserError>)
    ensures
        match r {
            Ok(out) => grammar::instantiated(e@) == Ok::<_, ParserErrorView>(out@),
            Err(err) => grammar::instantiated(e@) == Err::<ExpressionView, _>(err@),
        },
{
    match e {
        Expression::Identifier(name) => Ok(
            Expression::New {
                class: Box::new(Expression::Identifier(name)),
                args: no_expressions(),
            },
        ),
        Expression::Call { target, args } => match *target {
            Expression::Identifier(name) => Ok(
                Expression::New { class: Box::new(Expression::Identifier(name)), args },
            ),
            other => Err(
                ParserError::UnexpectedExpression(
                    Expression::Call { target: Box::new(other), args },
                ),
            ),
        },
        other => Err(ParserError::UnexpectedExpression(other)),
    }
}

/// What `static` makes of the expression that follows it.
pub fn make_static(e: Expression) -> (r: Result<Expression, ParserError>)
    ensures
        match r {
            Ok(out) => grammar::made_static(e@) == Ok::<_, ParserErrorView>(out@),
            Err(err) => grammar::made_static(e@) == Err::<ExpressionView, _>(err@),
        },
{
    match e {
        Expression::Closure(mut function) => {
            assert(e@ == ExpressionView::Closure(function@));
            if function.has_flags() {
                return Err(
                    ParserError::CanOnlyHaveFlag(Flag::Static, "Anonymous functions".to_owned()),
                );
            }
            function.add_flag(Flag::Static);
            Ok(Expression::Closure(function))
        },
        other => Err(ParserError::UnexpectedExpression(other)),
    }
}

/// The item that an expression adds to an array literal, and the next
/// free index after it.
pub fn key_item(e: Expression, counter: i64) -> (r: (Expression, i64))
    ensures
        r.0@ == grammar::keyed(e@, counter),
        r.1 == grammar::next_counter(e@, counter),
{
    match e {
        Expression::ArrayItem { key, value } => {
            assert(e@ == ExpressionView::ArrayItem { key: Box::new(key@), value: Box::new(value@) });
            let next = match &*key {
                Expression::Integer(i) => next_index(*i),
                Expression::Float(bits) => next_index(truncate(*bits)),
                _ => counter,
            };
            (Expression::ArrayItem { key, value }, next)
        },
        other => {
            let key = Expression::Integer(counter);
            assert(key@ == ExpressionView::Integer(counter));
            (Expression::ArrayItem { key: Box::new(key), value: Box::new(other) }, next_index(counter))
        },
    }
}

/// Makes the expression that a literal token stands for.
pub fn parse_literal(first: &Token) -> (r: Result<Expression, ParserError>)
    ensures
        match r {
            Ok(e) => grammar::literal(first@) == Ok::<_, ParserErrorView>(e@),
            Err(e) => grammar::literal(first@) == Err::<ExpressionView, _>(e@),
        },
{
    match first.kind {
        TokenKind::String => Ok(Expression::String(strip_quotes(first.slice.as_str()))),
        TokenKind::Integer => match parse_integer(first.slice.as_str()) {
            Ok(n) => Ok(Expression::Integer(n)),
            Err(e) => Err(ParserError::from(e)),
        },
        TokenKind::Float => match first.float {
            Some(bits) => Ok(Expression::Float(bits)),
            None => Err(ParserError::FloatParserError),
        },
        TokenKind::Variable => Ok(Expression::Variable(strip_first(first.slice.as_str()))),
        TokenKind::True => Ok(Expression::from(true)),
        TokenKind::False => Ok(Expression::from(false)),
        TokenKind::Null => Ok(Expression::Null),
        _ => Err(unexpected(first)),
    }
}

/// Makes the expression that a name stands for, with the variable after
/// it if there is one.
pub fn parse_named(tokens: &Vec<Token>, first: &Token, pos: usize) -> (r: (Expression, usize))
    ensures
        pos <= r.1,
        grammar::named(token_views(tokens@), first@, pos as nat) == (r.0@, (r.1 - pos) as nat),
{
    match token_at(tokens, pos) {
        Some(next) => if next.kind == TokenKind::Variable {
            (
                Expression::TypedVariable(first.slice.clone(), strip_first(next.slice.as_str())),
                pos + 1,
            )
        } else {
            (Expression::Identifier(first.slice.clone()), pos)
        },
        None => (Expression::Identifier(first.slice.clone()), pos),
    }
}

/// Reads the body of a closure.
pub fn parse_closure_body(tokens: &Vec<Token>, form: ClosureType, pos: usize) -> (r: Result<
    (Vec<Statement>, usize),
    ParserError,
>)
    ensures
        match r {
            Ok((body, next)) => pos < next && grammar::closure_body(
                token_views(tokens@),
                form,
                pos as nat,
            ) == Ok::<_, ParserErrorView>((statement_views(body), (next - pos) as nat)),
            Err(e) => grammar::closure_body(token_views(tokens@), form, pos as nat) == Err::<
                (Seq<StatementView>, nat),
                _,
            >(e@),
        },
    decreases remaining(token_views(tokens@), pos as nat), 2nat,
{
    proof {
        reveal(grammar::closure_body);
        reveal(grammar::block);
        reveal(grammar::expression_at);
    }
    if form == ClosureType::Long {
        parse_block(tokens, pos)
    } else {
        let (e, after) = Parser::parse_expression(tokens, pos, 0, None)?;
        let mut body = no_statements();
        push_statement(&mut body, Statement::Expression(e));
        assert(statement_views(body) =~= seq![StatementView::Expression(e@)]);
        Ok((body, after))
    }
}

/// Reads a closure after its keyword.
pub fn parse_closure(tokens: &Vec<Token>, form: ClosureType, pos: usize) -> (r: Result<
    (Expression, usize),
    ParserError,
>)
    ensures
        match r {
            Ok((e, next)) => pos < next && grammar::closure(token_views(tokens@), form, pos as nat)
                == Ok::<_, ParserErrorView>((e@, (next - pos) as nat)),
            Err(e) => grammar::closure(token_views(tokens@), form, pos as nat) == Err::<
                (ExpressionView, nat),
                _,
            >(e@),
        },
    decreases remaining(token_views(tokens@), pos as nat), 3nat,
{
    proof {
        reveal(grammar::closure);
        reveal(grammar::signature);
        reveal(grammar::closure_body);
    }
    let (parameters, hint, a_end) = if form == ClosureType::Long {
        parse_signature(tokens, pos, TokenKind::LeftBrace, "{")?
    } else {
        parse_signature(tokens, pos, TokenKind::DoubleArrow, "=>")?
    };
    let (body, b_end) = parse_closure_body(tokens, form, a_end)?;
    let function = Function::new(None, parameters, body, hint, Vec::new(), Some(form));
    Ok((Expression::Closure(function), b_end))
}

/// Reads the primary expression that begins with `first`.
pub fn parse_primary(tokens: &Vec<Token>, first: &Token, pos: usize) -> (r: Result<
    (Expression, usize),
    ParserError,
>)
    ensures
        match r {
            Ok((e, next)) => pos <= next && grammar::primary(
                token_views(tokens@),
                first@,
                pos as nat,
            ) == Ok::<_, ParserErrorView>((e@, (next - pos) as nat)),
            Err(e) => grammar::primary(token_views(tokens@), first@, pos as nat) == Err::<
                (ExpressionView, nat),
                _,
            >(e@),
        },
    decreases remaining(token_views(tokens@), pos as nat), 4nat,
{
    proof {
        reveal(grammar::primary);
        reveal(grammar::expression_at);
        reveal(grammar::closure);
        reveal(grammar::array_items);
    }
    match first.kind {
        TokenKind::New => {
            let (class, after) = Parser::parse_expression(tokens, pos, 0, None)?;
            let e = instantiate(class)?;
            Ok((e, after))
        },
        TokenKind::Static => {
            let (closure, after) = Parser::parse_expression(tokens, pos, 0, None)?;
            let e = make_static(closure)?;
            Ok((e, after))
        },
        TokenKind::ShortFunction => parse_closure(tokens, ClosureType::Short, pos),
        TokenKind::Function => parse_closure(tokens, ClosureType::Long, pos),
        TokenKind::String
        | TokenKind::Integer
        | TokenKind::Float
        | TokenKind::Variable
        | TokenKind::True
        | TokenKind::False
        | TokenKind::Null => {
            let e = parse_literal(first)?;
            Ok((e, pos))
        },
        TokenKind::LeftParen => {
            let (e, after) = Parser::parse_expression(tokens, pos, 0, None)?;
            expect_token(tokens, after, TokenKind::RightParen, ")")?;
            Ok((e, after + 1))
        },
        TokenKind::LeftBracket => parse_array(tokens, pos),
        TokenKind::Identifier | TokenKind::NullableIdentifier => Ok(
            parse_named(tokens, first, pos),
        ),
        TokenKind::Minus | TokenKind::Not | TokenKind::BitwiseNot => {
            let rbp = match BindingPower::prefix(first.kind) {
                Some((_, rbp)) => rbp,
                None => {
                    return Err(ParserError::Unknown);
                },
            };
            let (operand, after) = Parser::parse_expression(tokens, pos, rbp, None)?;
            Ok((prefix(first.kind, operand), after))
        },
        _ => Err(unexpected(first)),
    }
}

/// Applies a prefix operator to its operand.
fn prefix(kind: TokenKind, operand: Expression) -> (e: Expression)
    ensures
        e@ == grammar::prefixed(kind, operand@),
{
    let operand = Box::new(operand);
    match kind {
        TokenKind::Minus => Expression::Unary(operand),
        TokenKind::Not => Expression::Negate(operand),
        _ => Expression::BitwiseNot(operand),
    }
}

/// Reads the items of an array literal up to and with its `]`.
pub fn parse_array(tokens: &Vec<Token>, pos: usize) -> (r: Result<(Expression, usize), ParserError>)
    ensures
        match r {
            Ok((e, next)) => pos <= next && grammar::array_items(
                token_views(tokens@),
                pos as nat,
                Seq::empty(),
                0,
            ) == Ok::<_, ParserErrorView>((e@, (next - pos) as nat)),
            Err(e) => grammar::array_items(token_views(tokens@), pos as nat, Seq::empty(), 0)
                == Err::<(ExpressionView, nat), _>(e@),
        },
    decreases remaining(token_views(tokens@), pos as nat), 3nat,
{
    let ghost t = token_views(tokens@);
    let ghost whole = grammar::array_items(t, pos as nat, Seq::empty(), 0);
    let mut items = no_expressions();
    let mut counter: i64 = 0;
    let mut p = pos;
    loop
        invariant
            pos <= p,
            t == token_views(tokens@),
            whole == grammar::array_items(t, pos as nat, Seq::empty(), 0),
            whole == advanced(
                grammar::array_items(t, p as nat, expression_views(items), counter),
                (p - pos) as nat,
            ),
        decreases remaining(t, p as nat),
    {
        proof {
            reveal(grammar::array_items);
            reveal(grammar::expression);
        }
        match token_at(tokens, p) {
            None => {
                return Err(ParserError::UnexpectedEndOfFile);
            },
            Some(token) => {
                if token.kind == TokenKind::RightBracket {
                    return Ok((Expression::Array(items), p + 1));
                } else if token.kind == TokenKind::Comma {
                    p = p + 1;
                } else {
                    let (e, next) = Parser::parse_expression(tokens, p + 1, 0, Some(token))?;
                    let (item, following) = key_item(e, counter);
                    push_expression(&mut items, item);
                    counter = following;
                    p = next;
                }
            },
        }
    }
}

/// Lets `lhs` grow by the operators from `pos` on that bind at least as
/// tightly as `bp`.
pub fn continue_expression(tokens: &Vec<Token>, lhs: Expression, pos: usize, bp: u8) -> (r: Result<
    (Expression, usize),
    ParserError,
>)
    ensures
        match r {
            Ok((e, next)) => pos <= next && grammar::continued(
                token_views(tokens@),
                lhs@,
                pos as nat,
                bp,
            ) == Ok::<_, ParserErrorView>((e@, (next - pos) as nat)),
            Err(e) => grammar::continued(token_views(tokens@), lhs@, pos as nat, bp) == Err::<
                (ExpressionView, nat),
                _,
            >(e@),
        },
    decreases remaining(token_views(tokens@), pos as nat), 2nat,
{
    let ghost t = token_views(tokens@);
    let ghost whole = grammar::continued(t, lhs@, pos as nat, bp);
    let mut grown = lhs;
    let mut p = pos;
    loop
        invariant
            pos <= p,
            t == token_views(tokens@),
            whole == grammar::continued(t, lhs@, pos as nat, bp),
            whole == advanced(grammar::continued(t, grown@, p as nat, bp), (p - pos) as nat),
        decreases remaining(t, p as nat),
    {
        proof {
            reveal(grammar::continued);
            reveal(grammar::postfix);
            reveal(grammar::expression_at);
        }
        let op = match token_at(tokens, p) {
            None => {
                return Err(ParserError::UnexpectedEndOfFile);
            },
            Some(op) => op,
        };
        if let Some((lbp, _)) = BindingPower::postfix(op.kind) {
            if lbp < bp {
                return Ok((grown, p));
            }
            let (e, next) = parse_postfix(tokens, grown, op.kind, p + 1)?;
            grown = e;
            p = next;
        } else if let Some((lbp, rbp)) = BindingPower::infix(op.kind) {
            if lbp < bp {
                return Ok((grown, p));
            }
            let (rhs, next) = Parser::parse_expression(tokens, p + 1, rbp, None)?;
            grown = Expression::make_infix(grown, &op.kind, rhs);
            p = next;
        } else {
            return Ok((grown, p));
        }
    }
}

/// Reads what follows the postfix operator `kind` and applies it to
/// `target`.
pub fn parse_postfix(tokens: &Vec<Token>, target: Expression, kind: TokenKind, pos: usize) -> (r: Result<
    (Expression, usize),
    ParserError,
>)
    ensures
        match r {
            Ok((e, next)) => pos < next && grammar::postfix(
                token_views(tokens@),
                target@,
                kind,
                pos as nat,
            ) == Ok::<_, ParserErrorView>((e@, (next - pos) as nat)),
            Err(e) => grammar::postfix(token_views(tokens@), target@, kind, pos as nat) == Err::<
                (ExpressionView, nat),
                _,
            >(e@),
        },
    decreases remaining(token_views(tokens@), pos as nat), 1nat,
{
    proof {
        reveal(grammar::postfix);
        reveal(grammar::expression);
        reveal(grammar::arguments);
    }
    if kind == TokenKind::Arrow {
        match token_at(tokens, pos) {
            None => Err(ParserError::UnexpectedEndOfFile),
            Some(token) => if token.kind == TokenKind::Identifier {
                let property = Expression::Identifier(token.slice.clone());
                assert(property@ == ExpressionView::Identifier(token.slice@));
                Ok((Expression::PropertyAccess(Box::new(target), Box::new(property)), pos + 1))
            } else {
                Err(unexpected(token))
            },
        }
    } else if kind == TokenKind::LeftBracket {
        match token_at(tokens, pos) {
            None => Err(ParserError::UnexpectedEndOfFile),
            Some(token) => if token.kind == TokenKind::RightBracket {
                Ok((Expression::ArrayAccess(Box::new(target), None), pos + 1))
            } else {
                let (index, after) = Parser::parse_expression(tokens, pos + 1, 0, Some(token))?;
                expect_token(tokens, after, TokenKind::RightBracket, "]")?;
                Ok((Expression::ArrayAccess(Box::new(target), Some(Box::new(index))), after + 1))
            },
        }
    } else {
        let (args, after) = parse_arguments(tokens, pos)?;
        Ok((Expression::Call { target: Box::new(target), args }, after))
    }
}

/// Reads the arguments of a call up to and with its `)`.
pub fn parse_arguments(tokens: &Vec<Token>, pos: usize) -> (r: Result<
    (Vec<Expression>, usize),
    ParserError,
>)
    ensures
        match r {
            Ok((args, next)) => pos < next && grammar::arguments(
                token_views(tokens@),
                pos as nat,
                Seq::empty(),
            ) == Ok::<_, ParserErrorView>((expression_views(args), (next - pos) as nat)),
            Err(e) => grammar::arguments(token_views(tokens@), pos as nat, Seq::empty()) == Err::<
                (Seq<ExpressionView>, nat),
                _,
            >(e@),
        },
    decreases remaining(token_views(tokens@), pos as nat), 0nat,
{
    let ghost t = token_views(tokens@);
    let ghost whole = grammar::arguments(t, pos as nat, Seq::empty());
    let mut args = no_expressions();
    let mut p = pos;
    loop
        invariant
            pos <= p,
            t == token_views(tokens@),
            whole == grammar::arguments(t, pos as nat, Seq::empty()),
            whole == advanced(
                grammar::arguments(t, p as nat, expression_views(args)),
                (p - pos) as nat,
            ),
        decreases remaining(t, p as nat),
    {
        proof {
            reveal(grammar::arguments);
            reveal(grammar::expression);
        }
        match token_at(tokens, p) {
            None => {
                return Err(ParserError::UnexpectedEndOfFile);
            },
            Some(token) => {
                if token.kind == TokenKind::RightParen {
                    return Ok((args, p + 1));
                } else if token.kind == TokenKind::Comma {
                    if args.len() == 0 {
                        return Err(ParserError::UnexpectedToken(TokenKind::Comma, ",".to_owned()));
                    }
                    p = p + 1;
                } else {
                    let (e, next) = Parser::parse_expression(tokens, p + 1, 0, Some(token))?;
                    push_expression(&mut args, e);
                    p = next;
                }
            },
        }
    }
}

} // verus!
