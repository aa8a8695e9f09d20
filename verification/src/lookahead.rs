//! The grammar reads forward and looks one token ahead, no further: what
//! it makes of a construct depends on the tokens of the construct and on
//! the one token after it alone.

use vstd::prelude::*;
use crate::binding_power::{infix_power, postfix_power, prefix_power};
use crate::expression::{combined, ExpressionView};
use crate::flag::Flag;
use crate::function::{ClosureType, FunctionParameterView};
use crate::grammar;
use crate::grammar::{
    arguments, array_items, block, braced, class_body, class_head, class_statement, closure,
    closure_body, condition, continued, default_value, do_statement, else_chain, else_if_arm,
    expected, expression, expression_at, flag_of, flagged, foreach_head, foreach_statement,
    function_statement, if_statement, implemented, interfaces, joined, keyed, keyword_statement,
    next_counter, parameter, parameter_list, postfix, primary, remaining, signature, statement,
    token_at, while_statement, Parsed,
};
use crate::statement::StatementView;
use crate::token::{TokenKind, TokenView};

verus! {

/// Whether `a` and `b` are the same before the position `k`: where one
/// has a token the other has the same, and where one ends the other ends.
pub open spec fn same_up_to(a: Seq<TokenView>, b: Seq<TokenView>, k: nat) -> bool {
    forall|i: nat| i < k ==> #[trigger] token_at(a, i) == token_at(b, i)
}

/// Whether `r` is a construct read from `pos` in `a`, and `b` is the same
/// as `a` up to and with the one token after that construct.
pub open spec fn read_alike<T>(r: Parsed<T>, a: Seq<TokenView>, b: Seq<TokenView>, pos: nat) -> bool {
    r matches Ok((_, n)) && same_up_to(a, b, pos + n + 1)
}

/// A list of interfaces depends on its own tokens alone.
pub proof fn lemma_interfaces(a: Seq<TokenView>, b: Seq<TokenView>, pos: nat, names: Seq<Seq<char>>)
    requires
        read_alike(interfaces(a, pos, names), a, b, pos),
    ensures
        interfaces(b, pos, names) == interfaces(a, pos, names),
    decreases remaining(a, pos),
{
    if let Some(token) = token_at(a, pos) {
        if token.kind == TokenKind::Comma && expected(a, pos + 1, TokenKind::Identifier, ""@)
            is None {
            lemma_interfaces(a, b, pos + 2, names.push(a[(pos + 1) as int].slice));
        }
    }
}

/// The head of a class depends on its own tokens alone.
pub proof fn lemma_class_head(a: Seq<TokenView>, b: Seq<TokenView>, pos: nat)
    requires
        read_alike(class_head(a, pos), a, b, pos),
    ensures
        class_head(b, pos) == class_head(a, pos),
{
    if let Some(token) = token_at(a, pos) {
        let from = if token.kind == TokenKind::Extends {
            pos + 2
        } else {
            pos
        };
        assert(implemented(a, from) is Ok);
        if let Some(next) = token_at(a, from) {
            if next.kind == TokenKind::Implements {
                lemma_interfaces(a, b, from + 2, seq![a[(from + 1) as int].slice]);
            }
        }
        assert(implemented(b, from) == implemented(a, from));
    }
}

/// A statement depends on its own tokens and on the one after it alone.
pub proof fn lemma_statement(a: Seq<TokenView>, b: Seq<TokenView>, first: TokenView, pos: nat)
    requires
        read_alike(statement(a, first, pos), a, b, pos),
    ensures
        statement(b, first, pos) == statement(a, first, pos),
    decreases remaining(a, pos), 9nat,
{
    reveal(grammar::statement);
    reveal(grammar::keyword_statement);
    reveal(grammar::flagged);
    reveal(grammar::expression);
    reveal(grammar::while_statement);
    reveal(grammar::do_statement);
    reveal(grammar::foreach_statement);
    reveal(grammar::if_statement);
    reveal(grammar::function_statement);
    reveal(grammar::class_statement);
    assert(token_at(a, pos) == token_at(b, pos));
    match first.kind {
        TokenKind::OpenTag | TokenKind::DocBlockComment => {},
        TokenKind::Break
        | TokenKind::Continue
        | TokenKind::Use
        | TokenKind::Echo
        | TokenKind::Return => lemma_keyword_statement(a, b, first.kind, pos),
        TokenKind::While => lemma_while_statement(a, b, pos),
        TokenKind::Do => lemma_do_statement(a, b, pos),
        TokenKind::Foreach => lemma_foreach_statement(a, b, pos),
        TokenKind::If => lemma_if_statement(a, b, pos),
        TokenKind::Function => lemma_function_statement(a, b, pos),
        TokenKind::Class => lemma_class_statement(a, b, pos),
        TokenKind::Public
        | TokenKind::Protected
        | TokenKind::Private
        | TokenKind::Final
        | TokenKind::Abstract
        | TokenKind::Static => lemma_flagged(a, b, flag_of(first.kind).unwrap(), pos),
        TokenKind::String | TokenKind::Integer | TokenKind::Float => {},
        _ => lemma_expression(a, b, first, pos, 0),
    }
}

/// A statement that begins with a keyword depends on its own tokens alone.
pub proof fn lemma_keyword_statement(a: Seq<TokenView>, b: Seq<TokenView>, keyword: TokenKind, pos: nat)
    requires
        read_alike(keyword_statement(a, keyword, pos), a, b, pos),
    ensures
        keyword_statement(b, keyword, pos) == keyword_statement(a, keyword, pos),
    decreases remaining(a, pos), 8nat,
{
    reveal(grammar::keyword_statement);
    reveal(grammar::expression_at);
    assert(token_at(a, pos) == token_at(b, pos));
    if keyword == TokenKind::Break {
    } else if keyword == TokenKind::Continue && token_at(a, pos) is None {
    } else if keyword == TokenKind::Continue && a[pos as int].kind == TokenKind::SemiColon {
    } else {
        lemma_expression_at(a, b, pos, 0);
    }
}

/// A statement under a modifier depends on its own tokens and on the one
/// after it alone.
pub proof fn lemma_flagged(a: Seq<TokenView>, b: Seq<TokenView>, flag: Flag, pos: nat)
    requires
        read_alike(flagged(a, flag, pos), a, b, pos),
    ensures
        flagged(b, flag, pos) == flagged(a, flag, pos),
    decreases remaining(a, pos), 8nat,
{
    reveal(grammar::flagged);
    reveal(grammar::statement);
    if let Some(next) = token_at(a, pos) {
        lemma_statement(a, b, next, pos + 1);
    }
}

/// A block depends on its own tokens alone.
pub proof fn lemma_block(a: Seq<TokenView>, b: Seq<TokenView>, pos: nat, body: Seq<StatementView>)
    requires
        read_alike(block(a, pos, body), a, b, pos),
    ensures
        block(b, pos, body) == block(a, pos, body),
    decreases remaining(a, pos), 0nat,
{
    reveal(grammar::block);
    reveal(grammar::statement);
    if let Some(token) = token_at(a, pos) {
        if token.kind != TokenKind::RightBrace {
            if let Ok((s, n)) = statement(a, token, pos + 1) {
                lemma_statement(a, b, token, pos + 1);
                lemma_block(a, b, pos + 1 + n, body.push(s));
            }
        }
    }
}

/// A block in braces depends on its own tokens alone.
pub proof fn lemma_braced(a: Seq<TokenView>, b: Seq<TokenView>, pos: nat)
    requires
        read_alike(braced(a, pos), a, b, pos),
    ensures
        braced(b, pos) == braced(a, pos),
    decreases remaining(a, pos), 7nat,
{
    reveal(grammar::braced);
    reveal(grammar::block);
    if expected(a, pos, TokenKind::LeftBrace, "{"@) is None {
        lemma_block(a, b, pos + 1, Seq::empty());
    }
}

/// A condition in parentheses depends on its own tokens alone.
pub proof fn lemma_condition(a: Seq<TokenView>, b: Seq<TokenView>, pos: nat)
    requires
        read_alike(condition(a, pos), a, b, pos),
    ensures
        condition(b, pos) == condition(a, pos),
    decreases remaining(a, pos), 7nat,
{
    reveal(grammar::condition);
    reveal(grammar::expression_at);
    if expected(a, pos, TokenKind::LeftParen, "("@) is None {
        lemma_expression_at(a, b, pos + 1, 0);
    }
}

/// A `while` loop depends on its own tokens alone.
pub proof fn lemma_while_statement(a: Seq<TokenView>, b: Seq<TokenView>, pos: nat)
    requires
        read_alike(while_statement(a, pos), a, b, pos),
    ensures
        while_statement(b, pos) == while_statement(a, pos),
    decreases remaining(a, pos), 8nat,
{
    reveal(grammar::while_statement);
    reveal(grammar::condition);
    reveal(grammar::braced);
    if let Ok((_, n)) = condition(a, pos) {
        lemma_condition(a, b, pos);
        lemma_braced(a, b, pos + n);
    }
}

/// A `do` loop depends on its own tokens alone.
pub proof fn lemma_do_statement(a: Seq<TokenView>, b: Seq<TokenView>, pos: nat)
    requires
        read_alike(do_statement(a, pos), a, b, pos),
    ensures
        do_statement(b, pos) == do_statement(a, pos),
    decreases remaining(a, pos), 8nat,
{
    reveal(grammar::do_statement);
    reveal(grammar::condition);
    reveal(grammar::braced);
    if let Ok((_, n)) = braced(a, pos) {
        lemma_braced(a, b, pos);
        if expected(a, pos + n, TokenKind::While, "while"@) is None {
            lemma_condition(a, b, pos + n + 1);
        }
    }
}

/// The head of a `foreach` depends on its own tokens alone.
pub proof fn lemma_foreach_head(a: Seq<TokenView>, b: Seq<TokenView>, pos: nat)
    requires
        read_alike(foreach_head(a, pos), a, b, pos),
    ensures
        foreach_head(b, pos) == foreach_head(a, pos),
    decreases remaining(a, pos), 7nat,
{
    reveal(grammar::foreach_head);
    reveal(grammar::expression_at);
    if expected(a, pos, TokenKind::LeftParen, "("@) is None {
        if let Ok((_, n)) = expression_at(a, pos + 1, 0) {
            lemma_expression_at(a, b, pos + 1, 0);
            if expected(a, pos + 1 + n, TokenKind::As, "as"@) is None {
                lemma_expression_at(a, b, pos + 2 + n, 0);
            }
        }
    }
}

/// A `foreach` loop depends on its own tokens alone.
pub proof fn lemma_foreach_statement(a: Seq<TokenView>, b: Seq<TokenView>, pos: nat)
    requires
        read_alike(foreach_statement(a, pos), a, b, pos),
    ensures
        foreach_statement(b, pos) == foreach_statement(a, pos),
    decreases remaining(a, pos), 8nat,
{
    reveal(grammar::foreach_statement);
    reveal(grammar::foreach_head);
    reveal(grammar::braced);
    if let Ok((_, n)) = foreach_head(a, pos) {
        lemma_foreach_head(a, b, pos);
        lemma_braced(a, b, pos + n);
    }
}

/// An `elseif` arm depends on its own tokens alone.
pub proof fn lemma_else_if_arm(a: Seq<TokenView>, b: Seq<TokenView>, pos: nat)
    requires
        read_alike(else_if_arm(a, pos), a, b, pos),
    ensures
        else_if_arm(b, pos) == else_if_arm(a, pos),
    decreases remaining(a, pos), 8nat,
{
    reveal(grammar::else_if_arm);
    reveal(grammar::condition);
    reveal(grammar::braced);
    if let Ok((_, n)) = condition(a, pos) {
        lemma_condition(a, b, pos);
        lemma_braced(a, b, pos + n);
    }
}

/// The chain of arms after an `if` depends on its own tokens and on the
/// one after it alone.
pub proof fn lemma_else_chain(a: Seq<TokenView>, b: Seq<TokenView>, pos: nat, arms: Seq<StatementView>)
    requires
        read_alike(else_chain(a, pos, arms), a, b, pos),
    ensures
        else_chain(b, pos, arms) == else_chain(a, pos, arms),
    decreases remaining(a, pos), 0nat,
{
    reveal(grammar::else_chain);
    reveal(grammar::else_if_arm);
    reveal(grammar::braced);
    assert(token_at(a, pos) == token_at(b, pos));
    if let Some(token) = token_at(a, pos) {
        if token.kind == TokenKind::ElseIf {
            if let Ok((arm, n)) = else_if_arm(a, pos + 1) {
                lemma_else_if_arm(a, b, pos + 1);
                lemma_else_chain(a, b, pos + 1 + n, arms.push(arm));
            }
        } else if token.kind == TokenKind::Else {
            assert(token_at(a, pos + 1) == token_at(b, pos + 1));
            if token_at(a, pos + 1) matches Some(next) && next.kind == TokenKind::If {
                if let Ok((arm, n)) = else_if_arm(a, pos + 2) {
                    lemma_else_if_arm(a, b, pos + 2);
                    lemma_else_chain(a, b, pos + 2 + n, arms.push(arm));
                }
            } else {
                lemma_braced(a, b, pos + 1);
            }
        }
    }
}

/// An `if` depends on its own tokens and on the one after it alone.
pub proof fn lemma_if_statement(a: Seq<TokenView>, b: Seq<TokenView>, pos: nat)
    requires
        read_alike(if_statement(a, pos), a, b, pos),
    ensures
        if_statement(b, pos) == if_statement(a, pos),
    decreases remaining(a, pos), 8nat,
{
    reveal(grammar::if_statement);
    reveal(grammar::condition);
    reveal(grammar::braced);
    reveal(grammar::else_chain);
    if let Ok((_, n)) = condition(a, pos) {
        lemma_condition(a, b, pos);
        if let Ok((_, m)) = braced(a, pos + n) {
            lemma_braced(a, b, pos + n);
            lemma_else_chain(a, b, pos + n + m, Seq::empty());
        }
    }
}

/// A default value depends on its own tokens and on the one after it
/// alone.
pub proof fn lemma_default_value(a: Seq<TokenView>, b: Seq<TokenView>, pos: nat)
    requires
        read_alike(default_value(a, pos), a, b, pos),
    ensures
        default_value(b, pos) == default_value(a, pos),
    decreases remaining(a, pos), 0nat,
{
    reveal(grammar::default_value);
    reveal(grammar::expression_at);
    assert(token_at(a, pos) == token_at(b, pos));
    if token_at(a, pos) matches Some(token) && token.kind == TokenKind::Equals {
        lemma_expression_at(a, b, pos + 1, 0);
    }
}

/// A parameter depends on its own tokens and on the one after it alone.
pub proof fn lemma_parameter(a: Seq<TokenView>, b: Seq<TokenView>, first: TokenView, pos: nat)
    requires
        read_alike(parameter(a, first, pos), a, b, pos),
    ensures
        parameter(b, first, pos) == parameter(a, first, pos),
    decreases remaining(a, pos), 1nat,
{
    reveal(grammar::parameter);
    reveal(grammar::default_value);
    if first.kind == TokenKind::Variable {
        lemma_default_value(a, b, pos);
    } else if expected(a, pos, TokenKind::Variable, ""@) is None {
        lemma_default_value(a, b, pos + 1);
    }
}

/// A list of parameters depends on its own tokens alone.
pub proof fn lemma_parameter_list(
    a: Seq<TokenView>,
    b: Seq<TokenView>,
    pos: nat,
    parameters: Seq<FunctionParameterView>,
)
    requires
        read_alike(parameter_list(a, pos, parameters), a, b, pos),
    ensures
        parameter_list(b, pos, parameters) == parameter_list(a, pos, parameters),
    decreases remaining(a, pos), 0nat,
{
    reveal(grammar::parameter_list);
    reveal(grammar::parameter);
    if let Some(token) = token_at(a, pos) {
        if token.kind == TokenKind::RightParen {
        } else if token.kind == TokenKind::Comma {
            lemma_parameter_list(a, b, pos + 1, parameters);
        } else if let Ok((p, n)) = parameter(a, token, pos + 1) {
            lemma_parameter(a, b, token, pos + 1);
            lemma_parameter_list(a, b, pos + 1 + n, parameters.push(p));
        }
    }
}

/// A signature depends on its own tokens alone.
pub proof fn lemma_signature(
    a: Seq<TokenView>,
    b: Seq<TokenView>,
    pos: nat,
    open: TokenKind,
    slice: Seq<char>,
)
    requires
        read_alike(signature(a, pos, open, slice), a, b, pos),
    ensures
        signature(b, pos, open, slice) == signature(a, pos, open, slice),
    decreases remaining(a, pos), 2nat,
{
    reveal(grammar::signature);
    reveal(grammar::parameter_list);
    if expected(a, pos, TokenKind::LeftParen, "("@) is None {
        lemma_parameter_list(a, b, pos + 1, Seq::empty());
    }
}

/// A named function depends on its own tokens alone.
pub proof fn lemma_function_statement(a: Seq<TokenView>, b: Seq<TokenView>, pos: nat)
    requires
        read_alike(function_statement(a, pos), a, b, pos),
    ensures
        function_statement(b, pos) == function_statement(a, pos),
    decreases remaining(a, pos), 8nat,
{
    reveal(grammar::function_statement);
    reveal(grammar::signature);
    reveal(grammar::block);
    if expected(a, pos, TokenKind::Identifier, ""@) is None {
        if let Ok((_, n)) = signature(a, pos + 1, TokenKind::LeftBrace, "{"@) {
            lemma_signature(a, b, pos + 1, TokenKind::LeftBrace, "{"@);
            lemma_block(a, b, pos + 1 + n, Seq::empty());
        }
    }
}

/// The body of a class depends on its own tokens alone.
pub proof fn lemma_class_body(a: Seq<TokenView>, b: Seq<TokenView>, pos: nat, members: Seq<StatementView>)
    requires
        read_alike(class_body(a, pos, members), a, b, pos),
    ensures
        class_body(b, pos, members) == class_body(a, pos, members),
    decreases remaining(a, pos), 0nat,
{
    reveal(grammar::class_body);
    reveal(grammar::statement);
    if let Some(token) = token_at(a, pos) {
        if token.kind != TokenKind::RightBrace {
            if let Ok((s, n)) = statement(a, token, pos + 1) {
                lemma_statement(a, b, token, pos + 1);
                if let Ok(more) = joined(members, s) {
                    lemma_class_body(a, b, pos + 1 + n, more);
                }
            }
        }
    }
}

/// A class depends on its own tokens alone.
pub proof fn lemma_class_statement(a: Seq<TokenView>, b: Seq<TokenView>, pos: nat)
    requires
        read_alike(class_statement(a, pos), a, b, pos),
    ensures
        class_statement(b, pos) == class_statement(a, pos),
    decreases remaining(a, pos), 8nat,
{
    reveal(grammar::class_statement);
    reveal(grammar::class_body);
    if expected(a, pos, TokenKind::Identifier, ""@) is None {
        if let Ok((_, n)) = class_head(a, pos + 1) {
            lemma_class_head(a, b, pos + 1);
            lemma_class_body(a, b, pos + 1 + n, Seq::empty());
        }
    }
}

/// An expression depends on its own tokens and on the one after it alone.
pub proof fn lemma_expression_at(a: Seq<TokenView>, b: Seq<TokenView>, pos: nat, bp: u8)
    requires
        read_alike(expression_at(a, pos, bp), a, b, pos),
    ensures
        expression_at(b, pos, bp) == expression_at(a, pos, bp),
    decreases remaining(a, pos), 1nat,
{
    reveal(grammar::expression_at);
    reveal(grammar::expression);
    if let Some(first) = token_at(a, pos) {
        lemma_expression(a, b, first, pos + 1, bp);
    }
}

/// An expression depends on its own tokens and on the one after it alone.
pub proof fn lemma_expression(a: Seq<TokenView>, b: Seq<TokenView>, first: TokenView, pos: nat, bp: u8)
    requires
        read_alike(expression(a, first, pos, bp), a, b, pos),
    ensures
        expression(b, first, pos, bp) == expression(a, first, pos, bp),
    decreases remaining(a, pos), 5nat,
{
    reveal(grammar::expression);
    reveal(grammar::primary);
    reveal(grammar::continued);
    if let Ok((lhs, n)) = primary(a, first, pos) {
        lemma_primary(a, b, first, pos);
        lemma_continued(a, b, lhs, pos + n, bp);
    }
}

/// A closure depends on its own tokens and on the one after it alone.
pub proof fn lemma_closure(a: Seq<TokenView>, b: Seq<TokenView>, form: ClosureType, pos: nat)
    requires
        read_alike(closure(a, form, pos), a, b, pos),
    ensures
        closure(b, form, pos) == closure(a, form, pos),
    decreases remaining(a, pos), 3nat,
{
    reveal(grammar::closure);
    reveal(grammar::signature);
    reveal(grammar::closure_body);
    if form == ClosureType::Long {
        if let Ok((_, n)) = signature(a, pos, TokenKind::LeftBrace, "{"@) {
            lemma_signature(a, b, pos, TokenKind::LeftBrace, "{"@);
            lemma_closure_body(a, b, form, pos + n);
        }
    } else {
        if let Ok((_, n)) = signature(a, pos, TokenKind::DoubleArrow, "=>"@) {
            lemma_signature(a, b, pos, TokenKind::DoubleArrow, "=>"@);
            lemma_closure_body(a, b, form, pos + n);
        }
    }
}

/// The body of a closure depends on its own tokens and on the one after
/// it alone.
pub proof fn lemma_closure_body(a: Seq<TokenView>, b: Seq<TokenView>, form: ClosureType, pos: nat)
    requires
        read_alike(closure_body(a, form, pos), a, b, pos),
    ensures
        closure_body(b, form, pos) == closure_body(a, form, pos),
    decreases remaining(a, pos), 2nat,
{
    reveal(grammar::closure_body);
    reveal(grammar::block);
    reveal(grammar::expression_at);
    if form == ClosureType::Long {
        lemma_block(a, b, pos, Seq::empty());
    } else {
        lemma_expression_at(a, b, pos, 0);
    }
}

/// A primary expression depends on its own tokens and on the one after it
/// alone.
pub proof fn lemma_primary(a: Seq<TokenView>, b: Seq<TokenView>, first: TokenView, pos: nat)
    requires
        read_alike(primary(a, first, pos), a, b, pos),
    ensures
        primary(b, first, pos) == primary(a, first, pos),
    decreases remaining(a, pos), 4nat,
{
    reveal(grammar::primary);
    reveal(grammar::expression_at);
    reveal(grammar::closure);
    reveal(grammar::array_items);
    assert(token_at(a, pos) == token_at(b, pos));
    match first.kind {
        TokenKind::New | TokenKind::Static | TokenKind::LeftParen => lemma_expression_at(
            a,
            b,
            pos,
            0,
        ),
        TokenKind::ShortFunction => lemma_closure(a, b, ClosureType::Short, pos),
        TokenKind::Function => lemma_closure(a, b, ClosureType::Long, pos),
        TokenKind::LeftBracket => lemma_array_items(a, b, pos, Seq::empty(), 0),
        TokenKind::Minus | TokenKind::Not | TokenKind::BitwiseNot => lemma_expression_at(
            a,
            b,
            pos,
            prefix_power(first.kind).unwrap().1,
        ),
        _ => {},
    }
}

/// The items of an array depend on their own tokens alone.
pub proof fn lemma_array_items(
    a: Seq<TokenView>,
    b: Seq<TokenView>,
    pos: nat,
    items: Seq<ExpressionView>,
    counter: i64,
)
    requires
        read_alike(array_items(a, pos, items, counter), a, b, pos),
    ensures
        array_items(b, pos, items, counter) == array_items(a, pos, items, counter),
    decreases remaining(a, pos), 3nat,
{
    reveal(grammar::array_items);
    reveal(grammar::expression);
    if let Some(token) = token_at(a, pos) {
        if token.kind == TokenKind::RightBracket {
        } else if token.kind == TokenKind::Comma {
            lemma_array_items(a, b, pos + 1, items, counter);
        } else if let Ok((e, n)) = expression(a, token, pos + 1, 0) {
            lemma_expression(a, b, token, pos + 1, 0);
            lemma_array_items(
                a,
                b,
                pos + 1 + n,
                items.push(keyed(e, counter)),
                next_counter(e, counter),
            );
        }
    }
}

/// What an expression grows into depends on the tokens of its operators
/// and on the one after them alone.
pub proof fn lemma_continued(a: Seq<TokenView>, b: Seq<TokenView>, lhs: ExpressionView, pos: nat, bp: u8)
    requires
        read_alike(continued(a, lhs, pos, bp), a, b, pos),
    ensures
        continued(b, lhs, pos, bp) == continued(a, lhs, pos, bp),
    decreases remaining(a, pos), 2nat,
{
    reveal(grammar::continued);
    reveal(grammar::postfix);
    reveal(grammar::expression_at);
    assert(token_at(a, pos) == token_at(b, pos));
    if let Some(op) = token_at(a, pos) {
        match postfix_power(op.kind) {
            Some((lbp, _)) => {
                if lbp >= bp {
                    if let Ok((e, n)) = postfix(a, lhs, op.kind, pos + 1) {
                        lemma_postfix(a, b, lhs, op.kind, pos + 1);
                        lemma_continued(a, b, e, pos + 1 + n, bp);
                    }
                }
            },
            None => match infix_power(op.kind) {
                Some((lbp, rbp)) => {
                    if lbp >= bp {
                        if let Ok((rhs, n)) = expression_at(a, pos + 1, rbp) {
                            lemma_expression_at(a, b, pos + 1, rbp);
                            lemma_continued(a, b, combined(lhs, op.kind, rhs), pos + 1 + n, bp);
                        }
                    }
                },
                None => {},
            },
        }
    }
}

/// What follows a postfix operator depends on its own tokens alone.
pub proof fn lemma_postfix(
    a: Seq<TokenView>,
    b: Seq<TokenView>,
    target: ExpressionView,
    kind: TokenKind,
    pos: nat,
)
    requires
        read_alike(postfix(a, target, kind, pos), a, b, pos),
    ensures
        postfix(b, target, kind, pos) == postfix(a, target, kind, pos),
    decreases remaining(a, pos), 1nat,
{
    reveal(grammar::postfix);
    reveal(grammar::expression);
    reveal(grammar::arguments);
    assert(token_at(a, pos) == token_at(b, pos));
    if kind == TokenKind::Arrow {
    } else if kind == TokenKind::LeftBracket {
        if let Some(token) = token_at(a, pos) {
            if token.kind != TokenKind::RightBracket {
                lemma_expression(a, b, token, pos + 1, 0);
            }
        }
    } else {
        lemma_arguments(a, b, pos, Seq::empty());
    }
}

/// The arguments of a call depend on their own tokens alone.
pub proof fn lemma_arguments(a: Seq<TokenView>, b: Seq<TokenView>, pos: nat, args: Seq<ExpressionView>)
    requires
        read_alike(arguments(a, pos, args), a, b, pos),
    ensures
        arguments(b, pos, args) == arguments(a, pos, args),
    decreases remaining(a, pos), 0nat,
{
    reveal(grammar::arguments);
    reveal(grammar::expression);
    if let Some(token) = token_at(a, pos) {
        if token.kind == TokenKind::RightParen {
        } else if token.kind == TokenKind::Comma {
            if args.len() > 0 {
                lemma_arguments(a, b, pos + 1, args);
            }
        } else if let Ok((e, n)) = expression(a, token, pos + 1, 0) {
            lemma_expression(a, b, token, pos + 1, 0);
            lemma_arguments(a, b, pos + 1 + n, args.push(e));
        }
    }
}

} // verus!
