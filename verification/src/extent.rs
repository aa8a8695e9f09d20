//! The grammar reads what is there: no construct takes more tokens than
//! the tokens from its position on.

use vstd::prelude::*;
use crate::binding_power::{infix_power, postfix_power, prefix_power};
use crate::expression::{combined, ExpressionView};
use crate::flag::Flag;
use crate::function::{ClosureType, FunctionParameterView};
use crate::grammar;
use crate::grammar::{
    arguments, array_items, block, braced, class_body, class_head, class_statement, closure,
    closure_body, condition, continued, default_value, do_statement, else_chain, else_if_arm,
    expected, expression, expression_at, flag_of, flagged, foreach_head, foreach_statement,
    function_statement, if_statement, interfaces, joined, keyed, keyword_statement,
    next_counter, parameter, parameter_list, postfix, primary, remaining, signature, statement,
    token_at, while_statement,
};
use crate::statement::StatementView;
use crate::token::{TokenKind, TokenView};

verus! {

/// A list of interfaces takes no more tokens than there are.
pub proof fn lemma_interfaces(t: Seq<TokenView>, pos: nat, names: Seq<Seq<char>>)
    ensures
        interfaces(t, pos, names) matches Ok((_, n)) ==> n <= remaining(t, pos),
    decreases remaining(t, pos),
{
    if let Some(token) = token_at(t, pos) {
        if token.kind == TokenKind::Comma && expected(t, pos + 1, TokenKind::Identifier, ""@)
            is None {
            lemma_interfaces(t, pos + 2, names.push(t[(pos + 1) as int].slice));
        }
    }
}

/// The head of a class takes no more tokens than there are.
pub proof fn lemma_class_head(t: Seq<TokenView>, pos: nat)
    ensures
        class_head(t, pos) matches Ok((_, n)) ==> n <= remaining(t, pos),
{
    if let Some(token) = token_at(t, pos) {
        let from = if token.kind == TokenKind::Extends {
            pos + 2
        } else {
            pos
        };
        if let Some(next) = token_at(t, from) {
            if next.kind == TokenKind::Implements && expected(
                t,
                from + 1,
                TokenKind::Identifier,
                ""@,
            ) is None {
                lemma_interfaces(t, from + 2, seq![t[(from + 1) as int].slice]);
            }
        }
    }
}

/// A statement takes no more tokens than there are.
pub proof fn lemma_statement(t: Seq<TokenView>, first: TokenView, pos: nat)
    ensures
        statement(t, first, pos) matches Ok((_, n)) ==> n <= remaining(t, pos),
    decreases remaining(t, pos), 9nat,
{
    reveal(grammar::statement);
    reveal(grammar::keyword_statement);
    reveal(grammar::flagged);
    reveal(grammar::expression);
    reveal(grammar::while_statement);
    reveal(grammar::do_statement);
    reveal(grammar::foreach_statement);
    reveal(grammar::if_statement);
    reveal(grammar::function_statement);
    reveal(grammar::class_statement);
    match first.kind {
        TokenKind::OpenTag | TokenKind::DocBlockComment => {},
        TokenKind::Break
        | TokenKind::Continue
        | TokenKind::Use
        | TokenKind::Echo
        | TokenKind::Return => lemma_keyword_statement(t, first.kind, pos),
        TokenKind::While => lemma_while_statement(t, pos),
        TokenKind::Do => lemma_do_statement(t, pos),
        TokenKind::Foreach => lemma_foreach_statement(t, pos),
        TokenKind::If => lemma_if_statement(t, pos),
        TokenKind::Function => lemma_function_statement(t, pos),
        TokenKind::Class => lemma_class_statement(t, pos),
        TokenKind::Public
        | TokenKind::Protected
        | TokenKind::Private
        | TokenKind::Final
        | TokenKind::Abstract
        | TokenKind::Static => lemma_flagged(t, flag_of(first.kind).unwrap(), pos),
        TokenKind::String | TokenKind::Integer | TokenKind::Float => {},
        _ => lemma_expression(t, first, pos, 0),
    }
}

/// A statement that begins with a keyword takes no more tokens than there are.
pub proof fn lemma_keyword_statement(t: Seq<TokenView>, keyword: TokenKind, pos: nat)
    ensures
        keyword_statement(t, keyword, pos) matches Ok((_, n)) ==> n <= remaining(t, pos),
    decreases remaining(t, pos), 8nat,
{
    reveal(grammar::keyword_statement);
    reveal(grammar::expression_at);
    if keyword == TokenKind::Break {
    } else if keyword == TokenKind::Continue && token_at(t, pos) is None {
    } else if keyword == TokenKind::Continue && t[pos as int].kind == TokenKind::SemiColon {
    } else {
        lemma_expression_at(t, pos, 0);
    }
}

/// A statement under a modifier takes no more tokens than there are.
pub proof fn lemma_flagged(t: Seq<TokenView>, flag: Flag, pos: nat)
    ensures
        flagged(t, flag, pos) matches Ok((_, n)) ==> n <= remaining(t, pos),
    decreases remaining(t, pos), 8nat,
{
    reveal(grammar::flagged);
    reveal(grammar::statement);
    if let Some(next) = token_at(t, pos) {
        lemma_statement(t, next, pos + 1);
    }
}

/// A block takes no more tokens than there are.
pub proof fn lemma_block(t: Seq<TokenView>, pos: nat, body: Seq<StatementView>)
    ensures
        block(t, pos, body) matches Ok((_, n)) ==> n <= remaining(t, pos),
    decreases remaining(t, pos), 0nat,
{
    reveal(grammar::block);
    reveal(grammar::statement);
    if let Some(token) = token_at(t, pos) {
        if token.kind != TokenKind::RightBrace {
            if let Ok((s, n)) = statement(t, token, pos + 1) {
                lemma_statement(t, token, pos + 1);
                lemma_block(t, pos + 1 + n, body.push(s));
            }
        }
    }
}

/// A block in braces takes no more tokens than there are.
pub proof fn lemma_braced(t: Seq<TokenView>, pos: nat)
    ensures
        braced(t, pos) matches Ok((_, n)) ==> n <= remaining(t, pos),
    decreases remaining(t, pos), 7nat,
{
    reveal(grammar::braced);
    reveal(grammar::block);
    if expected(t, pos, TokenKind::LeftBrace, "{"@) is None {
        lemma_block(t, pos + 1, Seq::empty());
    }
}

/// A condition in parentheses takes no more tokens than there are.
pub proof fn lemma_condition(t: Seq<TokenView>, pos: nat)
    ensures
        condition(t, pos) matches Ok((_, n)) ==> n <= remaining(t, pos),
    decreases remaining(t, pos), 7nat,
{
    reveal(grammar::condition);
    reveal(grammar::expression_at);
    if expected(t, pos, TokenKind::LeftParen, "("@) is None {
        lemma_expression_at(t, pos + 1, 0);
    }
}

/// A `while` loop takes no more tokens than there are.
pub proof fn lemma_while_statement(t: Seq<TokenView>, pos: nat)
    ensures
        while_statement(t, pos) matches Ok((_, n)) ==> n <= remaining(t, pos),
    decreases remaining(t, pos), 8nat,
{
    reveal(grammar::while_statement);
    reveal(grammar::condition);
    reveal(grammar::braced);
    if let Ok((_, n)) = condition(t, pos) {
        lemma_condition(t, pos);
        lemma_braced(t, pos + n);
    }
}

/// A `do` loop takes no more tokens than there are.
pub proof fn lemma_do_statement(t: Seq<TokenView>, pos: nat)
    ensures
        do_statement(t, pos) matches Ok((_, n)) ==> n <= remaining(t, pos),
    decreases remaining(t, pos), 8nat,
{
    reveal(grammar::do_statement);
    reveal(grammar::condition);
    reveal(grammar::braced);
    if let Ok((_, n)) = braced(t, pos) {
        lemma_braced(t, pos);
        if expected(t, pos + n, TokenKind::While, "while"@) is None {
            lemma_condition(t, pos + n + 1);
        }
    }
}

/// The head of a `foreach` takes no more tokens than there are.
pub proof fn lemma_foreach_head(t: Seq<TokenView>, pos: nat)
    ensures
        foreach_head(t, pos) matches Ok((_, n)) ==> n <= remaining(t, pos),
    decreases remaining(t, pos), 7nat,
{
    reveal(grammar::foreach_head);
    reveal(grammar::expression_at);
    if expected(t, pos, TokenKind::LeftParen, "("@) is None {
        if let Ok((_, n)) = expression_at(t, pos + 1, 0) {
            lemma_expression_at(t, pos + 1, 0);
            if expected(t, pos + 1 + n, TokenKind::As, "as"@) is None {
                lemma_expression_at(t, pos + 2 + n, 0);
            }
        }
    }
}

/// A `foreach` loop takes no more tokens than there are.
pub proof fn lemma_foreach_statement(t: Seq<TokenView>, pos: nat)
    ensures
        foreach_statement(t, pos) matches Ok((_, n)) ==> n <= remaining(t, pos),
    decreases remaining(t, pos), 8nat,
{
    reveal(grammar::foreach_statement);
    reveal(grammar::foreach_head);
    reveal(grammar::braced);
    if let Ok((_, n)) = foreach_head(t, pos) {
        lemma_foreach_head(t, pos);
        lemma_braced(t, pos + n);
    }
}

/// An `elseif` arm takes no more tokens than there are.
pub proof fn lemma_else_if_arm(t: Seq<TokenView>, pos: nat)
    ensures
        else_if_arm(t, pos) matches Ok((_, n)) ==> n <= remaining(t, pos),
    decreases remaining(t, pos), 8nat,
{
    reveal(grammar::else_if_arm);
    reveal(grammar::condition);
    reveal(grammar::braced);
    if let Ok((_, n)) = condition(t, pos) {
        lemma_condition(t, pos);
        lemma_braced(t, pos + n);
    }
}

/// The chain of arms after an `if` takes no more tokens than there are.
pub proof fn lemma_else_chain(t: Seq<TokenView>, pos: nat, arms: Seq<StatementView>)
    ensures
        else_chain(t, pos, arms) matches Ok((_, n)) ==> n <= remaining(t, pos),
    decreases remaining(t, pos), 0nat,
{
    reveal(grammar::else_chain);
    reveal(grammar::else_if_arm);
    reveal(grammar::braced);
    if let Some(token) = token_at(t, pos) {
        if token.kind == TokenKind::ElseIf {
            if let Ok((arm, n)) = else_if_arm(t, pos + 1) {
                lemma_else_if_arm(t, pos + 1);
                lemma_else_chain(t, pos + 1 + n, arms.push(arm));
            }
        } else if token.kind == TokenKind::Else {
            if token_at(t, pos + 1) matches Some(next) && next.kind == TokenKind::If {
                if let Ok((arm, n)) = else_if_arm(t, pos + 2) {
                    lemma_else_if_arm(t, pos + 2);
                    lemma_else_chain(t, pos + 2 + n, arms.push(arm));
                }
            } else {
                lemma_braced(t, pos + 1);
            }
        }
    }
}

/// An `if` takes no more tokens than there are.
pub proof fn lemma_if_statement(t: Seq<TokenView>, pos: nat)
    ensures
        if_statement(t, pos) matches Ok((_, n)) ==> n <= remaining(t, pos),
    decreases remaining(t, pos), 8nat,
{
    reveal(grammar::if_statement);
    reveal(grammar::condition);
    reveal(grammar::braced);
    reveal(grammar::else_chain);
    if let Ok((_, n)) = condition(t, pos) {
        lemma_condition(t, pos);
        if let Ok((_, m)) = braced(t, pos + n) {
            lemma_braced(t, pos + n);
            lemma_else_chain(t, pos + n + m, Seq::empty());
        }
    }
}

/// A default value takes no more tokens than there are.
pub proof fn lemma_default_value(t: Seq<TokenView>, pos: nat)
    ensures
        default_value(t, pos) matches Ok((_, n)) ==> n <= remaining(t, pos),
    decreases remaining(t, pos), 0nat,
{
    reveal(grammar::default_value);
    reveal(grammar::expression_at);
    if token_at(t, pos) matches Some(token) && token.kind == TokenKind::Equals {
        lemma_expression_at(t, pos + 1, 0);
    }
}

/// A parameter takes no more tokens than there are.
pub proof fn lemma_parameter(t: Seq<TokenView>, first: TokenView, pos: nat)
    ensures
        parameter(t, first, pos) matches Ok((_, n)) ==> n <= remaining(t, pos),
    decreases remaining(t, pos), 1nat,
{
    reveal(grammar::parameter);
    reveal(grammar::default_value);
    if first.kind == TokenKind::Variable {
        lemma_default_value(t, pos);
    } else if expected(t, pos, TokenKind::Variable, ""@) is None {
        lemma_default_value(t, pos + 1);
    }
}

/// A list of parameters takes no more tokens than there are.
pub proof fn lemma_parameter_list(
    t: Seq<TokenView>,
    pos: nat,
    parameters: Seq<FunctionParameterView>,
)
    ensures
        parameter_list(t, pos, parameters) matches Ok((_, n)) ==> n <= remaining(t, pos),
    decreases remaining(t, pos), 0nat,
{
    reveal(grammar::parameter_list);
    reveal(grammar::parameter);
    if let Some(token) = token_at(t, pos) {
        if token.kind == TokenKind::RightParen {
        } else if token.kind == TokenKind::Comma {
            lemma_parameter_list(t, pos + 1, parameters);
        } else if let Ok((p, n)) = parameter(t, token, pos + 1) {
            lemma_parameter(t, token, pos + 1);
            lemma_parameter_list(t, pos + 1 + n, parameters.push(p));
        }
    }
}

/// A signature takes no more tokens than there are.
pub proof fn lemma_signature(
    t: Seq<TokenView>,
    pos: nat,
    open: TokenKind,
    slice: Seq<char>,
)
    ensures
        signature(t, pos, open, slice) matches Ok((_, n)) ==> n <= remaining(t, pos),
    decreases remaining(t, pos), 2nat,
{
    reveal(grammar::signature);
    reveal(grammar::parameter_list);
    if expected(t, pos, TokenKind::LeftParen, "("@) is None {
        lemma_parameter_list(t, pos + 1, Seq::empty());
    }
}

/// A named function takes no more tokens than there are.
pub proof fn lemma_function_statement(t: Seq<TokenView>, pos: nat)
    ensures
        function_statement(t, pos) matches Ok((_, n)) ==> n <= remaining(t, pos),
    decreases remaining(t, pos), 8nat,
{
    reveal(grammar::function_statement);
    reveal(grammar::signature);
    reveal(grammar::block);
    if expected(t, pos, TokenKind::Identifier, ""@) is None {
        if let Ok((_, n)) = signature(t, pos + 1, TokenKind::LeftBrace, "{"@) {
            lemma_signature(t, pos + 1, TokenKind::LeftBrace, "{"@);
            lemma_block(t, pos + 1 + n, Seq::empty());
        }
    }
}

/// The body of a class takes no more tokens than there are.
pub proof fn lemma_class_body(t: Seq<TokenView>, pos: nat, members: Seq<StatementView>)
    ensures
        class_body(t, pos, members) matches Ok((_, n)) ==> n <= remaining(t, pos),
    decreases remaining(t, pos), 0nat,
{
    reveal(grammar::class_body);
    reveal(grammar::statement);
    if let Some(token) = token_at(t, pos) {
        if token.kind != TokenKind::RightBrace {
            if let Ok((s, n)) = statement(t, token, pos + 1) {
                lemma_statement(t, token, pos + 1);
                if let Ok(more) = joined(members, s) {
                    lemma_class_body(t, pos + 1 + n, more);
                }
            }
        }
    }
}

/// A class takes no more tokens than there are.
pub proof fn lemma_class_statement(t: Seq<TokenView>, pos: nat)
    ensures
        class_statement(t, pos) matches Ok((_, n)) ==> n <= remaining(t, pos),
    decreases remaining(t, pos), 8nat,
{
    reveal(grammar::class_statement);
    reveal(grammar::class_body);
    if expected(t, pos, TokenKind::Identifier, ""@) is None {
        if let Ok((_, n)) = class_head(t, pos + 1) {
            lemma_class_head(t, pos + 1);
            lemma_class_body(t, pos + 1 + n, Seq::empty());
        }
    }
}

/// An expression takes no more tokens than there are.
pub proof fn lemma_expression_at(t: Seq<TokenView>, pos: nat, bp: u8)
    ensures
        expression_at(t, pos, bp) matches Ok((_, n)) ==> n <= remaining(t, pos),
    decreases remaining(t, pos), 1nat,
{
    reveal(grammar::expression_at);
    reveal(grammar::expression);
    if let Some(first) = token_at(t, pos) {
        lemma_expression(t, first, pos + 1, bp);
    }
}

/// An expression takes no more tokens than there are.
pub proof fn lemma_expression(t: Seq<TokenView>, first: TokenView, pos: nat, bp: u8)
    ensures
        expression(t, first, pos, bp) matches Ok((_, n)) ==> n <= remaining(t, pos),
    decreases remaining(t, pos), 5nat,
{
    reveal(grammar::expression);
    reveal(grammar::primary);
    reveal(grammar::continued);
    if let Ok((lhs, n)) = primary(t, first, pos) {
        lemma_primary(t, first, pos);
        lemma_continued(t, lhs, pos + n, bp);
    }
}

/// A closure takes no more tokens than there are.
pub proof fn lemma_closure(t: Seq<TokenView>, form: ClosureType, pos: nat)
    ensures
        closure(t, form, pos) matches Ok((_, n)) ==> n <= remaining(t, pos),
    decreases remaining(t, pos), 3nat,
{
    reveal(grammar::closure);
    reveal(grammar::signature);
    reveal(grammar::closure_body);
    if form == ClosureType::Long {
        if let Ok((_, n)) = signature(t, pos, TokenKind::LeftBrace, "{"@) {
            lemma_signature(t, pos, TokenKind::LeftBrace, "{"@);
            lemma_closure_body(t, form, pos + n);
        }
    } else {
        if let Ok((_, n)) = signature(t, pos, TokenKind::DoubleArrow, "=>"@) {
            lemma_signature(t, pos, TokenKind::DoubleArrow, "=>"@);
            lemma_closure_body(t, form, pos + n);
        }
    }
}

/// The body of a closure takes no more tokens than there are.
pub proof fn lemma_closure_body(t: Seq<TokenView>, form: ClosureType, pos: nat)
    ensures
        closure_body(t, form, pos) matches Ok((_, n)) ==> n <= remaining(t, pos),
    decreases remaining(t, pos), 2nat,
{
    reveal(grammar::closure_body);
    reveal(grammar::block);
    reveal(grammar::expression_at);
    if form == ClosureType::Long {
        lemma_block(t, pos, Seq::empty());
    } else {
        lemma_expression_at(t, pos, 0);
    }
}

/// A primary expression takes no more tokens than there are.
pub proof fn lemma_primary(t: Seq<TokenView>, first: TokenView, pos: nat)
    ensures
        primary(t, first, pos) matches Ok((_, n)) ==> n <= remaining(t, pos),
    decreases remaining(t, pos), 4nat,
{
    reveal(grammar::primary);
    reveal(grammar::expression_at);
    reveal(grammar::closure);
    reveal(grammar::array_items);
    match first.kind {
        TokenKind::New | TokenKind::Static | TokenKind::LeftParen => lemma_expression_at(
            t,
            pos,
            0,
        ),
        TokenKind::ShortFunction => lemma_closure(t, ClosureType::Short, pos),
        TokenKind::Function => lemma_closure(t, ClosureType::Long, pos),
        TokenKind::LeftBracket => lemma_array_items(t, pos, Seq::empty(), 0),
        TokenKind::Minus | TokenKind::Not | TokenKind::BitwiseNot => lemma_expression_at(
            t,
            pos,
            prefix_power(first.kind).unwrap().1,
        ),
        _ => {},
    }
}

/// The items of an array take no more tokens than there are.
pub proof fn lemma_array_items(
    t: Seq<TokenView>,
    pos: nat,
    items: Seq<ExpressionView>,
    counter: i64,
)
    ensures
        array_items(t, pos, items, counter) matches Ok((_, n)) ==> n <= remaining(t, pos),
    decreases remaining(t, pos), 3nat,
{
    reveal(grammar::array_items);
    reveal(grammar::expression);
    if let Some(token) = token_at(t, pos) {
        if token.kind == TokenKind::RightBracket {
        } else if token.kind == TokenKind::Comma {
            lemma_array_items(t, pos + 1, items, counter);
        } else if let Ok((e, n)) = expression(t, token, pos + 1, 0) {
            lemma_expression(t, token, pos + 1, 0);
            lemma_array_items(
                t,
                pos + 1 + n,
                items.push(keyed(e, counter)),
                next_counter(e, counter),
            );
        }
    }
}

/// The operators that an expression grows by are no more tokens than
/// there are.
pub proof fn lemma_continued(t: Seq<TokenView>, lhs: ExpressionView, pos: nat, bp: u8)
    ensures
        continued(t, lhs, pos, bp) matches Ok((_, n)) ==> n <= remaining(t, pos),
    decreases remaining(t, pos), 2nat,
{
    reveal(grammar::continued);
    reveal(grammar::postfix);
    reveal(grammar::expression_at);
    if let Some(op) = token_at(t, pos) {
        match postfix_power(op.kind) {
            Some((lbp, _)) => {
                if lbp >= bp {
                    if let Ok((e, n)) = postfix(t, lhs, op.kind, pos + 1) {
                        lemma_postfix(t, lhs, op.kind, pos + 1);
                        lemma_continued(t, e, pos + 1 + n, bp);
                    }
                }
            },
            None => match infix_power(op.kind) {
                Some((lbp, rbp)) => {
                    if lbp >= bp {
                        if let Ok((rhs, n)) = expression_at(t, pos + 1, rbp) {
                            lemma_expression_at(t, pos + 1, rbp);
                            lemma_continued(t, combined(lhs, op.kind, rhs), pos + 1 + n, bp);
                        }
                    }
                },
                None => {},
            },
        }
    }
}

/// What follows a postfix operator takes no more tokens than there are.
pub proof fn lemma_postfix(
    t: Seq<TokenView>,
    target: ExpressionView,
    kind: TokenKind,
    pos: nat,
)
    ensures
        postfix(t, target, kind, pos) matches Ok((_, n)) ==> n <= remaining(t, pos),
    decreases remaining(t, pos), 1nat,
{
    reveal(grammar::postfix);
    reveal(grammar::expression);
    reveal(grammar::arguments);
    if kind == TokenKind::Arrow {
    } else if kind == TokenKind::LeftBracket {
        if let Some(token) = token_at(t, pos) {
            if token.kind != TokenKind::RightBracket {
                lemma_expression(t, token, pos + 1, 0);
            }
        }
    } else {
        lemma_arguments(t, pos, Seq::empty());
    }
}

/// The arguments of a call take no more tokens than there are.
pub proof fn lemma_arguments(t: Seq<TokenView>, pos: nat, args: Seq<ExpressionView>)
    ensures
        arguments(t, pos, args) matches Ok((_, n)) ==> n <= remaining(t, pos),
    decreases remaining(t, pos), 0nat,
{
    reveal(grammar::arguments);
    reveal(grammar::expression);
    if let Some(token) = token_at(t, pos) {
        if token.kind == TokenKind::RightParen {
        } else if token.kind == TokenKind::Comma {
            if args.len() > 0 {
                lemma_arguments(t, pos + 1, args);
            }
        } else if let Ok((e, n)) = expression(t, token, pos + 1, 0) {
            lemma_expression(t, token, pos + 1, 0);
            lemma_arguments(t, pos + 1 + n, args.push(e));
        }
    }
}

} // verus!
