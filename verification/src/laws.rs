//! What holds of the grammar on all inputs.

use vstd::prelude::*;
use crate::binding_power::{infix_power, postfix_power, prefix_power};
use crate::class::well_formed_members;
use crate::error::{ParserError, ParserErrorView};
use crate::expression::ExpressionView;
use crate::flag::{any_visibility, Flag};
use crate::function::FunctionView;
use crate::grammar;
use crate::grammar::{attached, joined, keyed, next_counter, program, remaining};
use crate::number::{following, integer_value, truncated};
use crate::parser::{program_view, Parser};
use crate::property::PropertyView;
use crate::statement::{Statement, StatementView};
use crate::text::unquoted;
use crate::token::{TokenKind, TokenView};

verus! {

/// A program of one integer token is one expression statement: the
/// integer that the token denotes.
pub proof fn lemma_sole_integer(token: TokenView, n: i64)
    requires
        token.kind == TokenKind::Integer,
        integer_value(token.slice) == Some(n),
    ensures
        program(seq![token], 0, Seq::empty()) == Ok::<_, ParserErrorView>(
            seq![StatementView::Expression(ExpressionView::Integer(n))],
        ),
{
    reveal(grammar::statement);
    reveal_with_fuel(grammar::program, 2);
    let s = StatementView::Expression(ExpressionView::Integer(n));
    assert(grammar::statement(seq![token], token, 1) == Ok::<_, ParserErrorView>((s, 0nat)));
    assert(Seq::<StatementView>::empty().push(s) =~= seq![s]);
}

/// A program of one float token is one expression statement: the number
/// that the token stands for.
pub proof fn lemma_sole_float(token: TokenView, bits: u64)
    requires
        token.kind == TokenKind::Float,
        token.float == Some(bits),
    ensures
        program(seq![token], 0, Seq::empty()) == Ok::<_, ParserErrorView>(
            seq![StatementView::Expression(ExpressionView::Float(bits))],
        ),
{
    reveal(grammar::statement);
    reveal_with_fuel(grammar::program, 2);
    let s = StatementView::Expression(ExpressionView::Float(bits));
    assert(grammar::statement(seq![token], token, 1) == Ok::<_, ParserErrorView>((s, 0nat)));
    assert(Seq::<StatementView>::empty().push(s) =~= seq![s]);
}

/// A program of one string token, whose text is some content between two
/// quote characters, is one expression statement: that content, with the
/// two quote characters taken off and nothing else.
pub proof fn lemma_sole_string(token: TokenView, open: char, content: Seq<char>, close: char)
    requires
        token.kind == TokenKind::String,
        token.slice == seq![open] + content + seq![close],
    ensures
        program(seq![token], 0, Seq::empty()) == Ok::<_, ParserErrorView>(
            seq![StatementView::Expression(ExpressionView::String(content))],
        ),
{
    reveal(grammar::statement);
    reveal_with_fuel(grammar::program, 2);
    assert(unquoted(token.slice) =~= content);
    let s = StatementView::Expression(ExpressionView::String(content));
    assert(grammar::statement(seq![token], token, 1) == Ok::<_, ParserErrorView>((s, 0nat)));
    assert(Seq::<StatementView>::empty().push(s) =~= seq![s]);
}

/// Parsing is a function of the tokens and the position alone: two
/// parsers that hold the same tokens and stand at the same position give
/// outcomes of the same value, whenever and wherever they run.
pub proof fn lemma_parsing_is_pure(
    a: Parser,
    b: Parser,
    first: Result<Vec<Statement>, ParserError>,
    second: Result<Vec<Statement>, ParserError>,
)
    requires
        a.tokens() == b.tokens(),
        a.position() == b.position(),
        program_view(first) == program(a.tokens(), a.position(), Seq::empty()),
        program_view(second) == program(b.tokens(), b.position(), Seq::empty()),
    ensures
        program_view(first) == program_view(second),
{
}

/// Once the tokens have run out, nothing more is read: the program is
/// complete, and every construct that needs a token fails with the end of
/// the file.
pub proof fn lemma_end_of_tokens(t: Seq<TokenView>, pos: nat, bp: u8, body: Seq<StatementView>)
    requires
        pos >= t.len(),
    ensures
        program(t, pos, body) == Ok::<_, ParserErrorView>(body),
        grammar::expression_at(t, pos, bp) is Err,
        grammar::expression_at(t, pos, bp)->Err_0 == ParserErrorView::UnexpectedEndOfFile,
        grammar::block(t, pos, body) is Err,
        grammar::block(t, pos, body)->Err_0 == ParserErrorView::UnexpectedEndOfFile,
        grammar::class_body(t, pos, body) is Err,
        grammar::class_body(t, pos, body)->Err_0 == ParserErrorView::UnexpectedEndOfFile,
        grammar::condition(t, pos) is Err,
        grammar::condition(t, pos)->Err_0 == ParserErrorView::UnexpectedEndOfFile,
        grammar::braced(t, pos) is Err,
        grammar::braced(t, pos)->Err_0 == ParserErrorView::UnexpectedEndOfFile,
{
    reveal(grammar::expression_at);
    reveal(grammar::block);
    reveal(grammar::class_body);
    reveal(grammar::condition);
    reveal(grammar::braced);
}

/// A second method of one name cannot join the members of a class.
pub proof fn lemma_duplicate_method(members: Seq<StatementView>, i: int, f: FunctionView, name: Seq<char>)
    requires
        0 <= i < members.len(),
        members[i] matches StatementView::Function(g) && g.name == Some(name),
        f.name == Some(name),
    ensures
        joined(members, StatementView::Function(f)) == Err::<Seq<StatementView>, _>(
            ParserErrorView::MethodAlreadyExists(name),
        ),
{
}

/// A second property of one name cannot join the members of a class.
pub proof fn lemma_duplicate_property(members: Seq<StatementView>, i: int, p: PropertyView)
    requires
        0 <= i < members.len(),
        members[i] matches StatementView::Property(q) && q.name == p.name,
    ensures
        joined(members, StatementView::Property(p)) == Err::<Seq<StatementView>, _>(
            ParserErrorView::PropertyAlreadyExists(p.name),
        ),
{
}

/// A statement that joins well-formed members leaves them well-formed.
pub proof fn lemma_joined_well_formed(members: Seq<StatementView>, s: StatementView)
    requires
        well_formed_members(members),
    ensures
        joined(members, s) matches Ok(more) ==> well_formed_members(more),
{
    if let Ok(more) = joined(members, s) {
        assert forall|i: int, j: int| 0 <= i < j < more.len() implies !((#[trigger] more[i])
            matches StatementView::Function(f) && (#[trigger] more[j])
            matches StatementView::Function(g) && f.name == g.name) by {
            if j == members.len() {
                assert(more[i] == members[i]);
            } else {
                assert(more[i] == members[i] && more[j] == members[j]);
            }
        }
        assert forall|i: int, j: int| 0 <= i < j < more.len() implies !((#[trigger] more[i])
            matches StatementView::Property(p) && (#[trigger] more[j])
            matches StatementView::Property(q) && p.name == q.name) by {
            if j == members.len() {
                assert(more[i] == members[i]);
            } else {
                assert(more[i] == members[i] && more[j] == members[j]);
            }
        }
        assert forall|i: int| 0 <= i < more.len() implies (#[trigger] more[i]) is Function
            || more[i] is Property || more[i] is UseTrait by {
            if i < members.len() {
                assert(more[i] == members[i]);
            }
        }
    }
}

/// The body of a class, once read, is well-formed: the members that it
/// adds to well-formed members leave them well-formed.
pub proof fn lemma_class_body_well_formed(t: Seq<TokenView>, pos: nat, members: Seq<StatementView>)
    requires
        well_formed_members(members),
    ensures
        grammar::class_body(t, pos, members) matches Ok((all, _)) ==> well_formed_members(all),
    decreases remaining(t, pos),
{
    reveal(grammar::class_body);
    reveal(grammar::statement);
    if let Some(token) = grammar::token_at(t, pos) {
        if token.kind != TokenKind::RightBrace {
            if let Ok((s, n)) = grammar::statement(t, token, pos + 1) {
                lemma_joined_well_formed(members, s);
                if let Ok(more) = joined(members, s) {
                    lemma_class_body_well_formed(t, pos + 1 + n, more);
                }
            }
        }
    }
}

/// Every class that is read is well-formed.
pub proof fn lemma_class_well_formed(t: Seq<TokenView>, pos: nat)
    ensures
        grammar::class_statement(t, pos) matches Ok((StatementView::Class(c), _))
            ==> c.well_formed(),
{
    reveal(grammar::class_statement);
    reveal(grammar::class_body);
    if grammar::expected(t, pos, TokenKind::Identifier, ""@) is None {
        if let Ok((head, n)) = grammar::class_head(t, pos + 1) {
            lemma_class_body_well_formed(t, pos + 1 + n, Seq::empty());
        }
    }
}

/// `final` and `abstract` exclude each other on a function and on a
/// class, in either order.
pub proof fn lemma_final_excludes_abstract(s: StatementView, flags: Seq<Flag>)
    requires
        (s matches StatementView::Function(f) && f.flags == flags) || (s
            matches StatementView::Class(c) && c.flags == flags),
    ensures
        flags.contains(Flag::Abstract) ==> attached(Flag::Final, s) is Err && attached(
            Flag::Final,
            s,
        )->Err_0 is FlagNotAllowed,
        flags.contains(Flag::Final) ==> attached(Flag::Abstract, s) is Err && attached(
            Flag::Abstract,
            s,
        )->Err_0 is FlagNotAllowed,
        attached(Flag::Final, s) matches Ok(t) ==> attached(Flag::Abstract, t) is Err && attached(
            Flag::Abstract,
            t,
        )->Err_0 is FlagNotAllowed,
        attached(Flag::Abstract, s) matches Ok(t) ==> attached(Flag::Final, t) is Err && attached(
            Flag::Final,
            t,
        )->Err_0 is FlagNotAllowed,
{
    if let Ok(t) = attached(Flag::Final, s) {
        assert(flags.push(Flag::Final)[flags.len() as int] == Flag::Final);
    }
    if let Ok(t) = attached(Flag::Abstract, s) {
        assert(flags.push(Flag::Abstract)[flags.len() as int] == Flag::Abstract);
    }
}

/// A property takes no flag twice: the second time it is a duplicate.
pub proof fn lemma_duplicate_flag(p: PropertyView, flag: Flag)
    requires
        flag != Flag::Final,
        flag != Flag::Abstract,
    ensures
        p.flags.contains(flag) ==> attached(flag, StatementView::Property(p)) == Err::<
            StatementView,
            _,
        >(ParserErrorView::DuplicateFlag(flag)),
        attached(flag, StatementView::Property(p)) matches Ok(s) ==> attached(flag, s) == Err::<
            StatementView,
            _,
        >(ParserErrorView::DuplicateFlag(flag)),
{
    if let Ok(s) = attached(flag, StatementView::Property(p)) {
        assert(p.flags.push(flag)[p.flags.len() as int] == flag);
    }
}

/// A property takes one visibility flag only: a second, different one is
/// not allowed.
pub proof fn lemma_one_visibility(p: PropertyView, first: Flag, second: Flag)
    requires
        first.visibility(),
        second.visibility(),
        first != second,
    ensures
        attached(first, StatementView::Property(p)) matches Ok(s) ==> attached(second, s) is Err
            && attached(second, s)->Err_0 is FlagNotAllowed,
{
    if let Ok(s) = attached(first, StatementView::Property(p)) {
        let flags = p.flags.push(first);
        assert(flags[p.flags.len() as int] == first);
        assert(any_visibility(flags));
        if flags.contains(second) {
            let i = choose|i: int| 0 <= i < flags.len() && flags[i] == second;
            assert(p.flags[i] == second);
            assert(any_visibility(p.flags));
        }
    }
}

/// A typed variable under a modifier is a property with that one flag.
pub proof fn lemma_first_flag(type_hint: Seq<char>, variable: Seq<char>, flag: Flag)
    ensures
        attached(
            flag,
            StatementView::Expression(ExpressionView::TypedVariable(type_hint, variable)),
        ) == Ok::<_, ParserErrorView>(
            StatementView::Property(
                PropertyView {
                    name: variable,
                    flags: seq![flag],
                    type_hint: Some(type_hint),
                    default: None,
                },
            ),
        ),
{
}

/// In an array literal, an item without a key takes the next free index
/// as its key and moves the index on by one; an item with a key keeps it,
/// and only an integer or a float key moves the index.
pub proof fn lemma_array_keys(e: ExpressionView, counter: i64)
    ensures
        !(e is ArrayItem) ==> keyed(e, counter) == (ExpressionView::ArrayItem {
            key: Box::new(ExpressionView::Integer(counter)),
            value: Box::new(e),
        }) && next_counter(e, counter) == following(counter),
        e is ArrayItem ==> keyed(e, counter) == e,
        e matches ExpressionView::ArrayItem { key, .. } ==> match *key {
            ExpressionView::Integer(i) => next_counter(e, counter) == following(i),
            ExpressionView::Float(bits) => next_counter(e, counter) == following(truncated(bits)),
            _ => next_counter(e, counter) == counter,
        },
{
}

/// The binding powers are in the order of precedence: the postfix
/// operators bind tightest, then the prefix operators, then the infix
/// operators. An infix operator associates to the left, with a right
/// power one above its left power, but for `=` and `=>`, which bind
/// loosest and associate to the right.
pub proof fn lemma_binding_powers(kind: TokenKind)
    ensures
        infix_power(kind) matches Some((left, right)) ==> {
            &&& forall|other: TokenKind| #[trigger]
                postfix_power(other) matches Some((power, _)) ==> left < power && right < power
            &&& forall|other: TokenKind| #[trigger]
                prefix_power(other) matches Some((_, power)) ==> left < power
            &&& if kind == TokenKind::Equals || kind == TokenKind::DoubleArrow {
                &&& right < left
                &&& forall|other: TokenKind| #[trigger]
                    infix_power(other) matches Some((l, r)) ==> left <= l
            } else {
                right == left + 1
            }
        },
        prefix_power(kind) matches Some((_, right)) ==> forall|other: TokenKind| #[trigger]
            postfix_power(other) matches Some((power, _)) ==> right <= power,
{
}

} // verus!
