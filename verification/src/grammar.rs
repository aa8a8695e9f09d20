//! The grammar, as mathematical functions on a sequence of tokens.
//!
//! A position is the index of the next token that has not been read. A
//! function that reads a construct yields its value together with the
//! number of tokens that it read from its position on. The functions look
//! one token ahead and never go back. The first failure ends the parse.
//!
//! The functions that call one another are opaque. A proof reveals the
//! function that it looks into, together with the functions that this one
//! calls. They end because every call either stands further on in the
//! tokens or goes to a function of a lower rank: the measure of each is
//! the number of tokens left and, after it, the rank of the function.

use vstd::prelude::*;
use crate::binding_power::{infix_power, postfix_power, prefix_power};
use crate::class::ClassView;
use crate::error::ParserErrorView;
use crate::expression::{combined, ExpressionView};
use crate::flag::{any_visibility, Flag};
use crate::function::{ClosureType, FunctionParameterView, FunctionView};
use crate::if_statement::{ElseView, IfView};
use crate::number::{following, integer_value, truncated};
use crate::property::PropertyView;
use crate::statement::StatementView;
use crate::text::{unquoted, without_first};
use crate::token::{TokenKind, TokenView};

verus! {

/// A value and the number of tokens that were read for it, or the failure.
pub type Parsed<T> = Result<(T, nat), ParserErrorView>;

/// The number of tokens from `pos` on.
pub open spec fn remaining(t: Seq<TokenView>, pos: nat) -> nat {
    if pos < t.len() {
        (t.len() - pos) as nat
    } else {
        0
    }
}

/// The token at `pos`, if the tokens reach that far.
pub open spec fn token_at(t: Seq<TokenView>, pos: nat) -> Option<TokenView> {
    if pos < t.len() {
        Some(t[pos as int])
    } else {
        None
    }
}

/// `r` with `k` more tokens counted as read.
pub open spec fn advanced<T>(r: Parsed<T>, k: nat) -> Parsed<T> {
    match r {
        Ok((value, n)) => Ok((value, n + k)),
        Err(e) => Err(e),
    }
}

/// What is wrong where a token of `kind` is required at `pos`: nothing if
/// such a token stands there. `slice` is the text that the failure shows
/// for the required token.
pub open spec fn expected(t: Seq<TokenView>, pos: nat, kind: TokenKind, slice: Seq<char>) -> Option<
    ParserErrorView,
> {
    match token_at(t, pos) {
        None => Some(ParserErrorView::UnexpectedEndOfFile),
        Some(token) => if token.kind != kind {
            Some(
                ParserErrorView::ExpectedToken {
                    expected_type: kind,
                    expected_slice: slice,
                    got_type: token.kind,
                    got_slice: token.slice,
                },
            )
        } else {
            None
        },
    }
}

/// A statement `s` that ends with the `;` required at `pos`.
pub open spec fn terminated(t: Seq<TokenView>, pos: nat, s: StatementView) -> Parsed<StatementView> {
    match expected(t, pos, TokenKind::SemiColon, ";"@) {
        Some(e) => Err(e),
        None => Ok((s, 1)),
    }
}

/// The flag that a modifier token stands for.
pub open spec fn flag_of(kind: TokenKind) -> Option<Flag> {
    match kind {
        TokenKind::Public => Some(Flag::Public),
        TokenKind::Protected => Some(Flag::Protected),
        TokenKind::Private => Some(Flag::Private),
        TokenKind::Final => Some(Flag::Final),
        TokenKind::Abstract => Some(Flag::Abstract),
        TokenKind::Static => Some(Flag::Static),
        _ => None,
    }
}

/// The statement that a modifier makes of the statement that follows it.
///
/// A function or a class takes the flag unless it is `final` on an
/// abstract one or `abstract` on a final one. A typed variable becomes a
/// property with this one flag. A property takes neither `final` nor
/// `abstract`, no flag twice, and no second visibility flag. Nothing else
/// takes a flag.
pub open spec fn attached(flag: Flag, s: StatementView) -> Result<StatementView, ParserErrorView> {
    match s {
        StatementView::Function(f) => if flag == Flag::Final && f.flags.contains(Flag::Abstract) {
            Err(ParserErrorView::FlagNotAllowed(flag, "abstract methods."@))
        } else if flag == Flag::Abstract && f.flags.contains(Flag::Final) {
            Err(ParserErrorView::FlagNotAllowed(flag, "final methods"@))
        } else {
            Ok(StatementView::Function(FunctionView { flags: f.flags.push(flag), ..f }))
        },
        StatementView::Class(c) => if flag == Flag::Final && c.flags.contains(Flag::Abstract) {
            Err(ParserErrorView::FlagNotAllowed(flag, "abstract classes."@))
        } else if flag == Flag::Abstract && c.flags.contains(Flag::Final) {
            Err(ParserErrorView::FlagNotAllowed(flag, "final classes."@))
        } else {
            Ok(StatementView::Class(ClassView { flags: c.flags.push(flag), ..c }))
        },
        StatementView::Expression(ExpressionView::TypedVariable(type_hint, variable)) => Ok(
            StatementView::Property(
                PropertyView {
                    name: variable,
                    flags: seq![flag],
                    type_hint: Some(type_hint),
                    default: None,
                },
            ),
        ),
        StatementView::Property(p) => if flag == Flag::Final || flag == Flag::Abstract {
            Err(ParserErrorView::FlagNotAllowed(flag, "properties"@))
        } else if p.flags.contains(flag) {
            Err(ParserErrorView::DuplicateFlag(flag))
        } else if flag.visibility() && any_visibility(p.flags) {
            Err(
                ParserErrorView::FlagNotAllowed(
                    flag,
                    "properties with existing visiblity flags"@,
                ),
            )
        } else {
            Ok(StatementView::Property(PropertyView { flags: p.flags.push(flag), ..p }))
        },
        _ => Err(ParserErrorView::Unknown),
    }
}

/// Whether a function named `name` is among `members`.
pub open spec fn has_method(members: Seq<StatementView>, name: Option<Seq<char>>) -> bool {
    exists|i: int|
        0 <= i < members.len() && ((#[trigger] members[i]) matches StatementView::Function(f)
            && f.name == name)
}

/// Whether a property named `name` is among `members`.
pub open spec fn has_property(members: Seq<StatementView>, name: Seq<char>) -> bool {
    exists|i: int|
        0 <= i < members.len() && ((#[trigger] members[i]) matches StatementView::Property(p)
            && p.name == name)
}

/// The members of a class body after the statement `s` has joined them.
///
/// A function or a property joins unless one of its name is there
/// already. A `use` joins as the use of a trait. No other statement can
/// stand in a class body.
pub open spec fn joined(members: Seq<StatementView>, s: StatementView) -> Result<
    Seq<StatementView>,
    ParserErrorView,
> {
    match s {
        StatementView::Function(f) => if has_method(members, f.name) {
            Err(
                ParserErrorView::MethodAlreadyExists(
                    match f.name {
                        Some(name) => name,
                        None => Seq::empty(),
                    },
                ),
            )
        } else {
            Ok(members.push(s))
        },
        StatementView::Use(e) => Ok(members.push(StatementView::UseTrait(e))),
        StatementView::Property(p) => if has_property(members, p.name) {
            Err(ParserErrorView::PropertyAlreadyExists(p.name))
        } else {
            Ok(members.push(s))
        },
        _ => Err(ParserErrorView::UnexpectedStatement(s)),
    }
}

/// The key and the value variable that the expression after `as` gives to
/// a `foreach`: a variable is the value, an array item is key and value.
pub open spec fn loop_variables(e: ExpressionView) -> Option<(Option<ExpressionView>, ExpressionView)> {
    match e {
        ExpressionView::Variable(_) => Some((None, e)),
        ExpressionView::ArrayItem { key, value } => Some((Some(*key), *value)),
        _ => None,
    }
}

/// The item that the expression `e` adds to an array literal whose next
/// free index is `counter`: an array item as it is, anything else under
/// the key `counter`.
pub open spec fn keyed(e: ExpressionView, counter: i64) -> ExpressionView {
    match e {
        ExpressionView::ArrayItem { .. } => e,
        _ => ExpressionView::ArrayItem {
            key: Box::new(ExpressionView::Integer(counter)),
            value: Box::new(e),
        },
    }
}

/// The next free index after the item `e`: past an integer key, past the
/// integer part of a float key, unchanged after any other key, and past
/// `counter` where the item took it as its key.
pub open spec fn next_counter(e: ExpressionView, counter: i64) -> i64 {
    match e {
        ExpressionView::ArrayItem { key, .. } => match *key {
            ExpressionView::Integer(i) => following(i),
            ExpressionView::Float(bits) => following(truncated(bits)),
            _ => counter,
        },
        _ => following(counter),
    }
}

/// What `new` makes of the expression that follows it: the name of a
/// class, or a call of one, whose arguments go to the constructor.
pub open spec fn instantiated(e: ExpressionView) -> Result<ExpressionView, ParserErrorView> {
    match e {
        ExpressionView::Identifier(_) => Ok(
            ExpressionView::New { class: Box::new(e), args: Seq::empty() },
        ),
        ExpressionView::Call { target, args } => if *target is Identifier {
            Ok(ExpressionView::New { class: target, args })
        } else {
            Err(ParserErrorView::UnexpectedExpression(e))
        },
        _ => Err(ParserErrorView::UnexpectedExpression(e)),
    }
}

/// What `static` makes of the expression that follows it: a closure
/// without flags becomes a static closure.
pub open spec fn made_static(e: ExpressionView) -> Result<ExpressionView, ParserErrorView> {
    match e {
        ExpressionView::Closure(f) => if f.flags.len() > 0 {
            Err(ParserErrorView::CanOnlyHaveFlag(Flag::Static, "Anonymous functions"@))
        } else {
            Ok(ExpressionView::Closure(FunctionView { flags: f.flags.push(Flag::Static), ..f }))
        },
        _ => Err(ParserErrorView::UnexpectedExpression(e)),
    }
}

/// What a prefix operator makes of its operand: `-` the arithmetic
/// negation, `!` the logical negation, `~` the bitwise complement.
pub open spec fn prefixed(kind: TokenKind, operand: ExpressionView) -> ExpressionView
    recommends
        prefix_power(kind) is Some,
{
    match kind {
        TokenKind::Minus => ExpressionView::Unary(Box::new(operand)),
        TokenKind::Not => ExpressionView::Negate(Box::new(operand)),
        _ => ExpressionView::BitwiseNot(Box::new(operand)),
    }
}

/// The return type hint between a parameter list and the token `open`
/// that begins the body: `: Type` and then `open`, or `open` alone.
pub open spec fn return_type(t: Seq<TokenView>, pos: nat, open: TokenKind, slice: Seq<char>) -> Parsed<
    Option<Seq<char>>,
> {
    match token_at(t, pos) {
        None => Err(ParserErrorView::UnexpectedEndOfFile),
        Some(token) => if token.kind == TokenKind::Colon {
            match expected(t, pos + 1, TokenKind::Identifier, ""@) {
                Some(e) => Err(e),
                None => match expected(t, pos + 2, open, slice) {
                    Some(e) => Err(e),
                    None => Ok((Some(t[(pos + 1) as int].slice), 3)),
                },
            }
        } else if token.kind == open {
            Ok((None, 1))
        } else {
            Err(
                ParserErrorView::ExpectedToken {
                    expected_type: open,
                    expected_slice: slice,
                    got_type: token.kind,
                    got_slice: token.slice,
                },
            )
        },
    }
}

/// The names after `implements`, from the second on, up to and with the
/// `{` that ends the head of the class.
pub open spec fn interfaces(t: Seq<TokenView>, pos: nat, names: Seq<Seq<char>>) -> Parsed<
    Seq<Seq<char>>,
>
    decreases remaining(t, pos),
{
    match token_at(t, pos) {
        None => Err(ParserErrorView::UnexpectedEndOfFile),
        Some(token) => if token.kind == TokenKind::LeftBrace {
            Ok((names, 1))
        } else if token.kind == TokenKind::Comma {
            match expected(t, pos + 1, TokenKind::Identifier, ""@) {
                Some(e) => Err(e),
                None => advanced(interfaces(t, pos + 2, names.push(t[(pos + 1) as int].slice)), 2),
            }
        } else {
            Err(ParserErrorView::UnexpectedToken(token.kind, token.slice))
        },
    }
}

/// The rest of the head of a class after its parent, if it has one: a
/// list of interfaces or none, and the `{`.
pub open spec fn implemented(t: Seq<TokenView>, pos: nat) -> Parsed<Seq<Seq<char>>> {
    match token_at(t, pos) {
        None => Err(ParserErrorView::UnexpectedEndOfFile),
        Some(token) => if token.kind == TokenKind::LeftBrace {
            Ok((Seq::empty(), 1))
        } else if token.kind == TokenKind::Implements {
            match expected(t, pos + 1, TokenKind::Identifier, ""@) {
                Some(e) => Err(e),
                None => advanced(interfaces(t, pos + 2, seq![t[(pos + 1) as int].slice]), 2),
            }
        } else {
            Err(ParserErrorView::UnexpectedToken(token.kind, token.slice))
        },
    }
}

/// The head of a class after its name: at most one `extends Parent`, then
/// at most one `implements` with its list, then `{`. It yields the parent,
/// empty where there is none, and the interfaces.
pub open spec fn class_head(t: Seq<TokenView>, pos: nat) -> Parsed<(Seq<char>, Seq<Seq<char>>)> {
    match token_at(t, pos) {
        None => Err(ParserErrorView::UnexpectedEndOfFile),
        Some(token) => if token.kind == TokenKind::Extends {
            match expected(t, pos + 1, TokenKind::Identifier, ""@) {
                Some(e) => Err(e),
                None => match implemented(t, pos + 2) {
                    Err(e) => Err(e),
                    Ok((names, n)) => Ok(((t[(pos + 1) as int].slice, names), n + 2)),
                },
            }
        } else {
            match implemented(t, pos) {
                Err(e) => Err(e),
                Ok((names, n)) => Ok(((Seq::empty(), names), n)),
            }
        },
    }
}

/// The statement that a literal token makes by itself: a string without
/// its quotes, or the number that an integer or a float denotes. A string
/// takes the token that follows it along, if there is one.
pub open spec fn literal_statement(t: Seq<TokenView>, first: TokenView, pos: nat) -> Parsed<
    StatementView,
> {
    match literal(first) {
        Err(e) => Err(e),
        Ok(e) => Ok(
            (
                StatementView::Expression(e),
                if first.kind == TokenKind::String && pos < t.len() {
                    1nat
                } else {
                    0nat
                },
            ),
        ),
    }
}

/// The statement that begins with one of the keywords `break`,
/// `continue`, `use`, `echo` and `return`, already read; each ends with
/// `;`. `continue` takes an expression or none, `use` the name of what it
/// imports, `echo` and `return` an expression.
#[verifier::opaque]
pub open spec fn keyword_statement(t: Seq<TokenView>, keyword: TokenKind, pos: nat) -> Parsed<
    StatementView,
>
    decreases remaining(t, pos), 8nat,
{
    if keyword == TokenKind::Break {
        terminated(t, pos, StatementView::Break)
    } else if keyword == TokenKind::Continue && token_at(t, pos) is None {
        Err(ParserErrorView::UnexpectedEndOfFile)
    } else if keyword == TokenKind::Continue && t[pos as int].kind == TokenKind::SemiColon {
        Ok((StatementView::Continue(None), 1))
    } else {
        match expression_at(t, pos, 0) {
            Err(e) => Err(e),
            Ok((e, n)) => if keyword == TokenKind::Continue {
                advanced(terminated(t, pos + n, StatementView::Continue(Some(e))), n)
            } else if keyword == TokenKind::Echo {
                advanced(terminated(t, pos + n, StatementView::Echo(e)), n)
            } else if keyword == TokenKind::Return {
                advanced(terminated(t, pos + n, StatementView::Return(e)), n)
            } else if e is Identifier {
                advanced(terminated(t, pos + n, StatementView::Use(e)), n)
            } else {
                Err(ParserErrorView::UnexpectedExpression(e))
            },
        }
    }
}

/// The statement that follows a modifier, with the modifier's flag on it.
#[verifier::opaque]
pub open spec fn flagged(t: Seq<TokenView>, flag: Flag, pos: nat) -> Parsed<StatementView>
    decreases remaining(t, pos), 8nat,
{
    match token_at(t, pos) {
        None => Err(ParserErrorView::UnexpectedEndOfFile),
        Some(next) => match statement(t, next, pos + 1) {
            Err(e) => Err(e),
            Ok((inner, n)) => match attached(flag, inner) {
                Err(e) => Err(e),
                Ok(s) => Ok((s, n + 1)),
            },
        },
    }
}

/// The statement that begins with the token `first`; `pos` is the
/// position after that token. One token decides which statement it is. A
/// string, an integer or a float at the beginning of a statement is a
/// statement by itself. A token that begins no other statement begins an
/// expression, which ends with `;`.
#[verifier::opaque]
pub open spec fn statement(t: Seq<TokenView>, first: TokenView, pos: nat) -> Parsed<StatementView>
    decreases remaining(t, pos), 9nat,
{
    match first.kind {
        TokenKind::OpenTag => Ok((StatementView::OpenTag, 0)),
        TokenKind::DocBlockComment => Ok((StatementView::DocBlock(first.slice), 0)),
        TokenKind::Break
        | TokenKind::Continue
        | TokenKind::Use
        | TokenKind::Echo
        | TokenKind::Return => keyword_statement(t, first.kind, pos),
        TokenKind::While => while_statement(t, pos),
        TokenKind::Do => do_statement(t, pos),
        TokenKind::Foreach => foreach_statement(t, pos),
        TokenKind::If => if_statement(t, pos),
        TokenKind::Function => function_statement(t, pos),
        TokenKind::Class => class_statement(t, pos),
        TokenKind::Public
        | TokenKind::Protected
        | TokenKind::Private
        | TokenKind::Final
        | TokenKind::Abstract
        | TokenKind::Static => flagged(t, flag_of(first.kind).unwrap(), pos),
        TokenKind::String | TokenKind::Integer | TokenKind::Float => literal_statement(
            t,
            first,
            pos,
        ),
        _ => match expression(t, first, pos, 0) {
            Err(e) => Err(e),
            Ok((e, n)) => advanced(terminated(t, pos + n, StatementView::Expression(e)), n),
        },
    }
}

/// The statements from `pos` up to and with the `}` that ends their
/// block, after `body`.
#[verifier::opaque]
pub open spec fn block(t: Seq<TokenView>, pos: nat, body: Seq<StatementView>) -> Parsed<
    Seq<StatementView>,
>
    decreases remaining(t, pos), 0nat,
{
    match token_at(t, pos) {
        None => Err(ParserErrorView::UnexpectedEndOfFile),
        Some(token) => if token.kind == TokenKind::RightBrace {
            Ok((body, 1))
        } else {
            match statement(t, token, pos + 1) {
                Err(e) => Err(e),
                Ok((s, n)) => advanced(block(t, pos + 1 + n, body.push(s)), 1 + n),
            }
        },
    }
}

/// `{`, statements and `}`.
#[verifier::opaque]
pub open spec fn braced(t: Seq<TokenView>, pos: nat) -> Parsed<Seq<StatementView>>
    decreases remaining(t, pos), 7nat,
{
    match expected(t, pos, TokenKind::LeftBrace, "{"@) {
        Some(e) => Err(e),
        None => advanced(block(t, pos + 1, Seq::empty()), 1),
    }
}

/// `(`, an expression and `)`.
#[verifier::opaque]
pub open spec fn condition(t: Seq<TokenView>, pos: nat) -> Parsed<ExpressionView>
    decreases remaining(t, pos), 7nat,
{
    match expected(t, pos, TokenKind::LeftParen, "("@) {
        Some(e) => Err(e),
        None => match expression_at(t, pos + 1, 0) {
            Err(e) => Err(e),
            Ok((e, n)) => match expected(t, pos + 1 + n, TokenKind::RightParen, ")"@) {
                Some(e) => Err(e),
                None => Ok((e, n + 2)),
            },
        },
    }
}

/// `while` has been read: `(condition) { body }`.
#[verifier::opaque]
pub open spec fn while_statement(t: Seq<TokenView>, pos: nat) -> Parsed<StatementView>
    decreases remaining(t, pos), 8nat,
{
    match condition(t, pos) {
        Err(e) => Err(e),
        Ok((condition, n)) => match braced(t, pos + n) {
            Err(e) => Err(e),
            Ok((body, m)) => Ok((StatementView::While { condition, body }, n + m)),
        },
    }
}

/// `do` has been read: `{ body } while (condition);`.
#[verifier::opaque]
pub open spec fn do_statement(t: Seq<TokenView>, pos: nat) -> Parsed<StatementView>
    decreases remaining(t, pos), 8nat,
{
    match braced(t, pos) {
        Err(e) => Err(e),
        Ok((body, n)) => match expected(t, pos + n, TokenKind::While, "while"@) {
            Some(e) => Err(e),
            None => match condition(t, pos + n + 1) {
                Err(e) => Err(e),
                Ok((condition, m)) => advanced(
                    terminated(t, pos + n + 1 + m, StatementView::DoWhile { condition, body }),
                    n + 1 + m,
                ),
            },
        },
    }
}

/// The head of a `foreach`: `(expression as variables)`. It yields the
/// expression, the key variable if there is one, and the value variable.
#[verifier::opaque]
pub open spec fn foreach_head(t: Seq<TokenView>, pos: nat) -> Parsed<
    (ExpressionView, Option<ExpressionView>, ExpressionView),
>
    decreases remaining(t, pos), 7nat,
{
    match expected(t, pos, TokenKind::LeftParen, "("@) {
        Some(e) => Err(e),
        None => match expression_at(t, pos + 1, 0) {
            Err(e) => Err(e),
            Ok((expression, n)) => match expected(t, pos + 1 + n, TokenKind::As, "as"@) {
                Some(e) => Err(e),
                None => match expression_at(t, pos + 2 + n, 0) {
                    Err(e) => Err(e),
                    Ok((variables, m)) => match loop_variables(variables) {
                        None => Err(ParserErrorView::UnexpectedExpression(variables)),
                        Some((key_var, value_var)) => match expected(
                            t,
                            pos + 2 + n + m,
                            TokenKind::RightParen,
                            ")"@,
                        ) {
                            Some(e) => Err(e),
                            None => Ok(((expression, key_var, value_var), 3 + n + m)),
                        },
                    },
                },
            },
        },
    }
}

/// `foreach` has been read: `(expression as variables) { body }`.
#[verifier::opaque]
pub open spec fn foreach_statement(t: Seq<TokenView>, pos: nat) -> Parsed<StatementView>
    decreases remaining(t, pos), 8nat,
{
    match foreach_head(t, pos) {
        Err(e) => Err(e),
        Ok(((expression, key_var, value_var), n)) => match braced(t, pos + n) {
            Err(e) => Err(e),
            Ok((body, m)) => Ok(
                (StatementView::Foreach { expression, key_var, value_var, body }, n + m),
            ),
        },
    }
}

/// One `elseif` arm: `(condition) { body }`.
#[verifier::opaque]
pub open spec fn else_if_arm(t: Seq<TokenView>, pos: nat) -> Parsed<StatementView>
    decreases remaining(t, pos), 8nat,
{
    match condition(t, pos) {
        Err(e) => Err(e),
        Ok((condition, n)) => match braced(t, pos + n) {
            Err(e) => Err(e),
            Ok((then_body, m)) => Ok(
                (
                    StatementView::ElseIf(
                        IfView { condition, then_body, else_ifs: Seq::empty(), else_branch: None },
                    ),
                    n + m,
                ),
            ),
        },
    }
}

/// What follows the first body of an `if`, after the arms `arms`: more
/// arms, each begun by `elseif` or by `else if`, and an `else` with its
/// body, which ends the chain. The end of the tokens ends it too. Any
/// other token is a failure.
#[verifier::opaque]
pub open spec fn else_chain(t: Seq<TokenView>, pos: nat, arms: Seq<StatementView>) -> Parsed<
    (Seq<StatementView>, Option<Box<StatementView>>),
>
    decreases remaining(t, pos), 0nat,
{
    match token_at(t, pos) {
        None => Ok(((arms, None), 0)),
        Some(token) => if token.kind == TokenKind::ElseIf {
            match else_if_arm(t, pos + 1) {
                Err(e) => Err(e),
                Ok((arm, n)) => advanced(else_chain(t, pos + 1 + n, arms.push(arm)), 1 + n),
            }
        } else if token.kind == TokenKind::Else {
            if token_at(t, pos + 1) matches Some(next) && next.kind == TokenKind::If {
                match else_if_arm(t, pos + 2) {
                    Err(e) => Err(e),
                    Ok((arm, n)) => advanced(else_chain(t, pos + 2 + n, arms.push(arm)), 2 + n),
                }
            } else {
                match braced(t, pos + 1) {
                    Err(e) => Err(e),
                    Ok((then_body, n)) => Ok(
                        (
                            (
                                arms,
                                Some(Box::new(StatementView::Else(ElseView { then_body }))),
                            ),
                            n + 1,
                        ),
                    ),
                }
            }
        } else {
            Err(ParserErrorView::UnexpectedToken(token.kind, token.slice))
        },
    }
}

/// `if` has been read: `(condition) { body }` and the chain of its arms.
#[verifier::opaque]
pub open spec fn if_statement(t: Seq<TokenView>, pos: nat) -> Parsed<StatementView>
    decreases remaining(t, pos), 8nat,
{
    match condition(t, pos) {
        Err(e) => Err(e),
        Ok((condition, n)) => match braced(t, pos + n) {
            Err(e) => Err(e),
            Ok((then_body, m)) => match else_chain(t, pos + n + m, Seq::empty()) {
                Err(e) => Err(e),
                Ok(((else_ifs, else_branch), k)) => Ok(
                    (
                        StatementView::If(IfView { condition, then_body, else_ifs, else_branch }),
                        n + m + k,
                    ),
                ),
            },
        },
    }
}

/// The default value of a parameter: `=` and an expression, or nothing.
#[verifier::opaque]
pub open spec fn default_value(t: Seq<TokenView>, pos: nat) -> Parsed<Option<ExpressionView>>
    decreases remaining(t, pos), 0nat,
{
    if token_at(t, pos) matches Some(token) && token.kind == TokenKind::Equals {
        match expression_at(t, pos + 1, 0) {
            Err(e) => Err(e),
            Ok((e, n)) => Ok((Some(e), n + 1)),
        }
    } else {
        Ok((None, 0))
    }
}

/// The parameter that begins with the token `first`, a type hint or a
/// variable: an optional type hint, a variable, and an optional default
/// value; `pos` is the position after that token.
#[verifier::opaque]
pub open spec fn parameter(t: Seq<TokenView>, first: TokenView, pos: nat) -> Parsed<
    FunctionParameterView,
>
    decreases remaining(t, pos), 1nat,
{
    if first.kind == TokenKind::Variable {
        match default_value(t, pos) {
            Err(e) => Err(e),
            Ok((default, n)) => Ok(
                (
                    FunctionParameterView {
                        name: without_first(first.slice),
                        type_hint: None,
                        default,
                    },
                    n,
                ),
            ),
        }
    } else {
        match expected(t, pos, TokenKind::Variable, ""@) {
            Some(e) => Err(e),
            None => match default_value(t, pos + 1) {
                Err(e) => Err(e),
                Ok((default, n)) => Ok(
                    (
                        FunctionParameterView {
                            name: without_first(t[pos as int].slice),
                            type_hint: Some(first.slice),
                            default,
                        },
                        n + 1,
                    ),
                ),
            },
        }
    }
}

/// The parameters from `pos` up to and with the `)` that ends their list,
/// after `parameters`. Commas separate the parameters and may follow the
/// last.
#[verifier::opaque]
pub open spec fn parameter_list(
    t: Seq<TokenView>,
    pos: nat,
    parameters: Seq<FunctionParameterView>,
) -> Parsed<Seq<FunctionParameterView>>
    decreases remaining(t, pos), 0nat,
{
    match token_at(t, pos) {
        None => Err(ParserErrorView::UnexpectedEndOfFile),
        Some(token) => if token.kind == TokenKind::RightParen {
            Ok((parameters, 1))
        } else if token.kind == TokenKind::Comma {
            advanced(parameter_list(t, pos + 1, parameters), 1)
        } else if token.kind == TokenKind::Identifier || token.kind
            == TokenKind::NullableIdentifier || token.kind == TokenKind::Variable {
            match parameter(t, token, pos + 1) {
                Err(e) => Err(e),
                Ok((p, n)) => advanced(parameter_list(t, pos + 1 + n, parameters.push(p)), 1 + n),
            }
        } else {
            Err(ParserErrorView::UnexpectedToken(token.kind, token.slice))
        },
    }
}

/// The signature of a function: `(parameters)`, an optional `: Type`,
/// and the token `open` that begins the body. It yields the parameters
/// and the return type hint.
#[verifier::opaque]
pub open spec fn signature(t: Seq<TokenView>, pos: nat, open: TokenKind, slice: Seq<char>) -> Parsed<
    (Seq<FunctionParameterView>, Option<Seq<char>>),
>
    decreases remaining(t, pos), 2nat,
{
    match expected(t, pos, TokenKind::LeftParen, "("@) {
        Some(e) => Err(e),
        None => match parameter_list(t, pos + 1, Seq::empty()) {
            Err(e) => Err(e),
            Ok((parameters, n)) => match return_type(t, pos + 1 + n, open, slice) {
                Err(e) => Err(e),
                Ok((return_type_hint, r)) => Ok(((parameters, return_type_hint), 1 + n + r)),
            },
        },
    }
}

/// `function` has been read: the name, the signature and `{ body }`.
#[verifier::opaque]
pub open spec fn function_statement(t: Seq<TokenView>, pos: nat) -> Parsed<StatementView>
    decreases remaining(t, pos), 8nat,
{
    match expected(t, pos, TokenKind::Identifier, ""@) {
        Some(e) => Err(e),
        None => match signature(t, pos + 1, TokenKind::LeftBrace, "{"@) {
            Err(e) => Err(e),
            Ok(((parameters, return_type_hint), n)) => match block(t, pos + 1 + n, Seq::empty()) {
                Err(e) => Err(e),
                Ok((body, m)) => Ok(
                    (
                        StatementView::Function(
                            FunctionView {
                                name: Some(t[pos as int].slice),
                                parameters,
                                body,
                                return_type_hint,
                                flags: Seq::empty(),
                                closure_type: None,
                            },
                        ),
                        1 + n + m,
                    ),
                ),
            },
        },
    }
}

/// The members of a class from `pos` up to and with the `}` that ends its
/// body, after `members`.
#[verifier::opaque]
pub open spec fn class_body(t: Seq<TokenView>, pos: nat, members: Seq<StatementView>) -> Parsed<
    Seq<StatementView>,
>
    decreases remaining(t, pos), 0nat,
{
    match token_at(t, pos) {
        None => Err(ParserErrorView::UnexpectedEndOfFile),
        Some(token) => if token.kind == TokenKind::RightBrace {
            Ok((members, 1))
        } else {
            match statement(t, token, pos + 1) {
                Err(e) => Err(e),
                Ok((s, n)) => match joined(members, s) {
                    Err(e) => Err(e),
                    Ok(more) => advanced(class_body(t, pos + 1 + n, more), 1 + n),
                },
            }
        },
    }
}

/// `class` has been read: the name, the head and the body.
#[verifier::opaque]
pub open spec fn class_statement(t: Seq<TokenView>, pos: nat) -> Parsed<StatementView>
    decreases remaining(t, pos), 8nat,
{
    match expected(t, pos, TokenKind::Identifier, ""@) {
        Some(e) => Err(e),
        None => match class_head(t, pos + 1) {
            Err(e) => Err(e),
            Ok(((extends, implements), n)) => match class_body(t, pos + 1 + n, Seq::empty()) {
                Err(e) => Err(e),
                Ok((body, m)) => Ok(
                    (
                        StatementView::Class(
                            ClassView {
                                name: t[pos as int].slice,
                                implements,
                                extends,
                                body,
                                flags: Seq::empty(),
                            },
                        ),
                        1 + n + m,
                    ),
                ),
            },
        },
    }
}

/// The expression that begins at `pos`, read with the least binding power
/// `bp`.
#[verifier::opaque]
pub open spec fn expression_at(t: Seq<TokenView>, pos: nat, bp: u8) -> Parsed<ExpressionView>
    decreases remaining(t, pos), 1nat,
{
    match token_at(t, pos) {
        None => Err(ParserErrorView::UnexpectedEndOfFile),
        Some(first) => advanced(expression(t, first, pos + 1, bp), 1),
    }
}

/// The expression that begins with the token `first`, read with the least
/// binding power `bp`; `pos` is the position after that token. It is a
/// primary expression and then every postfix and infix operator that binds
/// at least as tightly as `bp`.
#[verifier::opaque]
pub open spec fn expression(t: Seq<TokenView>, first: TokenView, pos: nat, bp: u8) -> Parsed<
    ExpressionView,
>
    decreases remaining(t, pos), 5nat,
{
    match primary(t, first, pos) {
        Err(e) => Err(e),
        Ok((lhs, n)) => advanced(continued(t, lhs, pos + n, bp), n),
    }
}

/// A closure after its keyword: the signature and the body. `{` begins
/// the body of a long closure, `=>` that of a short one.
#[verifier::opaque]
pub open spec fn closure(t: Seq<TokenView>, form: ClosureType, pos: nat) -> Parsed<ExpressionView>
    decreases remaining(t, pos), 3nat,
{
    match (if form == ClosureType::Long {
        signature(t, pos, TokenKind::LeftBrace, "{"@)
    } else {
        signature(t, pos, TokenKind::DoubleArrow, "=>"@)
    }) {
        Err(e) => Err(e),
        Ok(((parameters, return_type_hint), n)) => match closure_body(t, form, pos + n) {
            Err(e) => Err(e),
            Ok((body, m)) => Ok(
                (
                    ExpressionView::Closure(
                        FunctionView {
                            name: None,
                            parameters,
                            body,
                            return_type_hint,
                            flags: Seq::empty(),
                            closure_type: Some(form),
                        },
                    ),
                    n + m,
                ),
            ),
        },
    }
}

/// The body of a closure: a block for the long form, and one expression,
/// as an expression statement, for the short form.
#[verifier::opaque]
pub open spec fn closure_body(t: Seq<TokenView>, form: ClosureType, pos: nat) -> Parsed<
    Seq<StatementView>,
>
    decreases remaining(t, pos), 2nat,
{
    if form == ClosureType::Long {
        block(t, pos, Seq::empty())
    } else {
        match expression_at(t, pos, 0) {
            Err(e) => Err(e),
            Ok((e, m)) => Ok((seq![StatementView::Expression(e)], m)),
        }
    }
}

/// The expression that a literal token stands for: a string without its
/// quotes, the number that an integer or a float denotes, a variable
/// without its sigil, `true`, `false` or `null`. No other token stands
/// for one.
pub open spec fn literal(first: TokenView) -> Result<ExpressionView, ParserErrorView> {
    match first.kind {
        TokenKind::String => Ok(ExpressionView::String(unquoted(first.slice))),
        TokenKind::Integer => match integer_value(first.slice) {
            Some(n) => Ok(ExpressionView::Integer(n)),
            None => Err(ParserErrorView::IntegerParserError),
        },
        TokenKind::Float => match first.float {
            Some(bits) => Ok(ExpressionView::Float(bits)),
            None => Err(ParserErrorView::FloatParserError),
        },
        TokenKind::Variable => Ok(ExpressionView::Variable(without_first(first.slice))),
        TokenKind::True => Ok(ExpressionView::True),
        TokenKind::False => Ok(ExpressionView::False),
        TokenKind::Null => Ok(ExpressionView::Null),
        _ => Err(ParserErrorView::UnexpectedToken(first.kind, first.slice)),
    }
}

/// What the name `first` stands for: with a variable after it a typed
/// variable, and else an identifier.
pub open spec fn named(t: Seq<TokenView>, first: TokenView, pos: nat) -> (ExpressionView, nat) {
    if token_at(t, pos) matches Some(next) && next.kind == TokenKind::Variable {
        (ExpressionView::TypedVariable(first.slice, without_first(t[pos as int].slice)), 1)
    } else {
        (ExpressionView::Identifier(first.slice), 0)
    }
}

/// The primary expression that begins with the token `first`: a literal,
/// a name, a parenthesised expression, an array, a closure, an
/// instantiation, or a prefix operator with its operand.
#[verifier::opaque]
pub open spec fn primary(t: Seq<TokenView>, first: TokenView, pos: nat) -> Parsed<ExpressionView>
    decreases remaining(t, pos), 4nat,
{
    match first.kind {
        TokenKind::New => match expression_at(t, pos, 0) {
            Err(e) => Err(e),
            Ok((class, n)) => match instantiated(class) {
                Err(e) => Err(e),
                Ok(e) => Ok((e, n)),
            },
        },
        TokenKind::Static => match expression_at(t, pos, 0) {
            Err(e) => Err(e),
            Ok((closure, n)) => match made_static(closure) {
                Err(e) => Err(e),
                Ok(e) => Ok((e, n)),
            },
        },
        TokenKind::ShortFunction => closure(t, ClosureType::Short, pos),
        TokenKind::Function => closure(t, ClosureType::Long, pos),
        TokenKind::String
        | TokenKind::Integer
        | TokenKind::Float
        | TokenKind::Variable
        | TokenKind::True
        | TokenKind::False
        | TokenKind::Null => match literal(first) {
            Err(e) => Err(e),
            Ok(e) => Ok((e, 0)),
        },
        TokenKind::LeftParen => match expression_at(t, pos, 0) {
            Err(e) => Err(e),
            Ok((e, n)) => match expected(t, pos + n, TokenKind::RightParen, ")"@) {
                Some(e) => Err(e),
                None => Ok((e, n + 1)),
            },
        },
        TokenKind::LeftBracket => array_items(t, pos, Seq::empty(), 0),
        TokenKind::Identifier | TokenKind::NullableIdentifier => Ok(named(t, first, pos)),
        TokenKind::Minus | TokenKind::Not | TokenKind::BitwiseNot => match expression_at(
            t,
            pos,
            prefix_power(first.kind).unwrap().1,
        ) {
            Err(e) => Err(e),
            Ok((operand, n)) => Ok((prefixed(first.kind, operand), n)),
        },
        _ => Err(ParserErrorView::UnexpectedToken(first.kind, first.slice)),
    }
}

/// The items of an array literal from `pos` up to and with the `]` that
/// ends it, after `items`; `counter` is the next free index. Commas
/// separate the items and are otherwise ignored.
#[verifier::opaque]
pub open spec fn array_items(
    t: Seq<TokenView>,
    pos: nat,
    items: Seq<ExpressionView>,
    counter: i64,
) -> Parsed<ExpressionView>
    decreases remaining(t, pos), 3nat,
{
    match token_at(t, pos) {
        None => Err(ParserErrorView::UnexpectedEndOfFile),
        Some(token) => if token.kind == TokenKind::RightBracket {
            Ok((ExpressionView::Array(items), 1))
        } else if token.kind == TokenKind::Comma {
            advanced(array_items(t, pos + 1, items, counter), 1)
        } else {
            match expression(t, token, pos + 1, 0) {
                Err(e) => Err(e),
                Ok((e, n)) => advanced(
                    array_items(
                        t,
                        pos + 1 + n,
                        items.push(keyed(e, counter)),
                        next_counter(e, counter),
                    ),
                    1 + n,
                ),
            }
        },
    }
}

/// The expression that `lhs` grows into by the operators from `pos` on
/// that bind at least as tightly as `bp`. A postfix operator takes `lhs`
/// as its target, an infix operator as its left operand; its right operand
/// is read with the operator's right binding power. The tokens must not
/// end here: an expression is always followed by a token.
#[verifier::opaque]
pub open spec fn continued(t: Seq<TokenView>, lhs: ExpressionView, pos: nat, bp: u8) -> Parsed<
    ExpressionView,
>
    decreases remaining(t, pos), 2nat,
{
    match token_at(t, pos) {
        None => Err(ParserErrorView::UnexpectedEndOfFile),
        Some(op) => match postfix_power(op.kind) {
            Some((lbp, _)) => if lbp < bp {
                Ok((lhs, 0))
            } else {
                match postfix(t, lhs, op.kind, pos + 1) {
                    Err(e) => Err(e),
                    Ok((e, n)) => advanced(continued(t, e, pos + 1 + n, bp), 1 + n),
                }
            },
            None => match infix_power(op.kind) {
                Some((lbp, rbp)) => if lbp < bp {
                    Ok((lhs, 0))
                } else {
                    match expression_at(t, pos + 1, rbp) {
                        Err(e) => Err(e),
                        Ok((rhs, n)) => advanced(
                            continued(t, combined(lhs, op.kind, rhs), pos + 1 + n, bp),
                            1 + n,
                        ),
                    }
                },
                None => Ok((lhs, 0)),
            },
        },
    }
}

/// What the postfix operator `kind`, already read, makes of `target`:
/// `->` with a name the access to a property, `[` with an optional index
/// and `]` the access to an array, `(` with arguments and `)` a call.
#[verifier::opaque]
pub open spec fn postfix(t: Seq<TokenView>, target: ExpressionView, kind: TokenKind, pos: nat) -> Parsed<
    ExpressionView,
>
    recommends
        postfix_power(kind) is Some,
    decreases remaining(t, pos), 1nat,
{
    if kind == TokenKind::Arrow {
        match token_at(t, pos) {
            None => Err(ParserErrorView::UnexpectedEndOfFile),
            Some(token) => if token.kind == TokenKind::Identifier {
                Ok(
                    (
                        ExpressionView::PropertyAccess(
                            Box::new(target),
                            Box::new(ExpressionView::Identifier(token.slice)),
                        ),
                        1,
                    ),
                )
            } else {
                Err(ParserErrorView::UnexpectedToken(token.kind, token.slice))
            },
        }
    } else if kind == TokenKind::LeftBracket {
        match token_at(t, pos) {
            None => Err(ParserErrorView::UnexpectedEndOfFile),
            Some(token) => if token.kind == TokenKind::RightBracket {
                Ok((ExpressionView::ArrayAccess(Box::new(target), None), 1))
            } else {
                match expression(t, token, pos + 1, 0) {
                    Err(e) => Err(e),
                    Ok((index, n)) => match expected(
                        t,
                        pos + 1 + n,
                        TokenKind::RightBracket,
                        "]"@,
                    ) {
                        Some(e) => Err(e),
                        None => Ok(
                            (
                                ExpressionView::ArrayAccess(
                                    Box::new(target),
                                    Some(Box::new(index)),
                                ),
                                n + 2,
                            ),
                        ),
                    },
                }
            },
        }
    } else {
        match arguments(t, pos, Seq::empty()) {
            Err(e) => Err(e),
            Ok((args, n)) => Ok((ExpressionView::Call { target: Box::new(target), args }, n)),
        }
    }
}

/// The arguments of a call from `pos` up to and with the `)` that ends
/// them, after `args`. No comma stands before the first argument.
#[verifier::opaque]
pub open spec fn arguments(t: Seq<TokenView>, pos: nat, args: Seq<ExpressionView>) -> Parsed<
    Seq<ExpressionView>,
>
    decreases remaining(t, pos), 0nat,
{
    match token_at(t, pos) {
        None => Err(ParserErrorView::UnexpectedEndOfFile),
        Some(token) => if token.kind == TokenKind::RightParen {
            Ok((args, 1))
        } else if token.kind == TokenKind::Comma {
            if args.len() == 0 {
                Err(ParserErrorView::UnexpectedToken(TokenKind::Comma, ","@))
            } else {
                advanced(arguments(t, pos + 1, args), 1)
            }
        } else {
            match expression(t, token, pos + 1, 0) {
                Err(e) => Err(e),
                Ok((e, n)) => advanced(arguments(t, pos + 1 + n, args.push(e)), 1 + n),
            }
        },
    }
}

/// The expression read with the least binding power `bp`: the one that
/// begins with `first`, where a first token is given and `pos` is the
/// position after it, and else the one that begins at `pos`.
pub open spec fn next_expression(
    t: Seq<TokenView>,
    first: Option<TokenView>,
    pos: nat,
    bp: u8,
) -> Parsed<ExpressionView> {
    match first {
        Some(token) => expression(t, token, pos, bp),
        None => expression_at(t, pos, bp),
    }
}

/// The statements from `pos` to the end of the tokens, after `statements`.
pub open spec fn program(t: Seq<TokenView>, pos: nat, statements: Seq<StatementView>) -> Result<
    Seq<StatementView>,
    ParserErrorView,
>
    decreases remaining(t, pos),
{
    match token_at(t, pos) {
        None => Ok(statements),
        Some(token) => match statement(t, token, pos + 1) {
            Err(e) => Err(e),
            Ok((s, n)) => program(t, pos + 1 + n, statements.push(s)),
        },
    }
}

} // verus!
