//! Reading classes.

use vstd::prelude::*;
use vstd::string::*;
use crate::class::Class;
use crate::cursor::{expect_token, token_at, unexpected};
use crate::error::{ParserError, ParserErrorView};
use crate::grammar;
use crate::grammar::{advanced, remaining};
use crate::laws::lemma_class_well_formed;
use crate::parser::Parser;
use crate::statement::{no_statements, push_statement, statement_views, Statement, StatementView};
use crate::text::{optional_text, push_text, texts};
use crate::token::{token_views, Token, TokenKind};

verus! {

/// Whether two optional names are the same.
pub fn same_name(a: &Option<String>, b: &Option<String>) -> (r: bool)
    ensures
        r == (optional_text(*a) == optional_text(*b)),
{
    match a {
        Some(x) => match b {
            Some(y) => *x == *y,
            None => false,
        },
        None => b.is_none(),
    }
}

/// Whether a function named `name` is among `members`.
pub fn has_method(members: &Vec<Statement>, name: &Option<String>) -> (r: bool)
    ensures
        r == grammar::has_method(statement_views(*members), optional_text(*name)),
{
    let mut i: usize = 0;
    while i < members.len()
        invariant
            i <= members.len(),
            forall|j: int|
                0 <= j < i ==> !((#[trigger] statement_views(*members)[j])
                    matches StatementView::Function(f) && f.name == optional_text(*name)),
        decreases members.len() - i,
    {
        if let Statement::Function(f) = &members[i] {
            if same_name(&f.name, name) {
                assert(statement_views(*members)[i as int] == members[i as int]@);
                return true;
            }
        }
        assert(statement_views(*members)[i as int] == members[i as int]@);
        i += 1;
    }
    false
}

/// Whether a property named `name` is among `members`.
pub fn has_property(members: &Vec<Statement>, name: &String) -> (r: bool)
    ensures
        r == grammar::has_property(statement_views(*members), name@),
{
    let mut i: usize = 0;
    while i < members.len()
        invariant
            i <= members.len(),
            forall|j: int|
                0 <= j < i ==> !((#[trigger] statement_views(*members)[j])
                    matches StatementView::Property(p) && p.name == name@),
        decreases members.len() - i,
    {
        if let Statement::Property(p) = &members[i] {
            if p.name == *name {
                assert(statement_views(*members)[i as int] == members[i as int]@);
                return true;
            }
        }
        assert(statement_views(*members)[i as int] == members[i as int]@);
        i += 1;
    }
    false
}

/// Lets a statement join the members of a class body.
pub fn join_member(members: &mut Vec<Statement>, statement: Statement) -> (r: Result<(), ParserError>)
    ensures
        match r {
            Ok(_) => grammar::joined(statement_views(*old(members)), statement@) == Ok::<
                _,
                ParserErrorView,
            >(statement_views(*final(members))),
            Err(e) => grammar::joined(statement_views(*old(members)), statement@) == Err::<
                Seq<StatementView>,
                _,
            >(e@),
        },
{
    match statement {
        Statement::Function(function) => {
            if has_method(members, &function.name) {
                let name = match function.name {
                    Some(name) => name,
                    None => String::new(),
                };
                return Err(ParserError::MethodAlreadyExists(name));
            }
            push_statement(members, Statement::Function(function));
            Ok(())
        },
        Statement::Use(e) => {
            push_statement(members, Statement::UseTrait(e));
            Ok(())
        },
        Statement::Property(property) => {
            if has_property(members, &property.name) {
                return Err(ParserError::PropertyAlreadyExists(property.name));
            }
            push_statement(members, Statement::Property(property));
            Ok(())
        },
        other => Err(ParserError::UnexpectedStatement(other)),
    }
}

/// The names after `implements`, from the second on, and the `{`.
pub fn parse_interfaces(tokens: &Vec<Token>, pos: usize, names: Vec<String>) -> (r: Result<
    (Vec<String>, usize),
    ParserError,
>)
    ensures
        match r {
            Ok((all, next)) => pos < next <= tokens.len() && grammar::interfaces(
                token_views(tokens@),
                pos as nat,
                texts(names@),
            ) == Ok::<_, ParserErrorView>((texts(all@), (next - pos) as nat)),
            Err(e) => grammar::interfaces(token_views(tokens@), pos as nat, texts(names@))
                == Err::<(Seq<Seq<char>>, nat), _>(e@),
        },
{
    let ghost t = token_views(tokens@);
    let ghost whole = grammar::interfaces(t, pos as nat, texts(names@));
    let mut all = names;
    let mut p = pos;
    loop
        invariant
            pos <= p,
            t == token_views(tokens@),
            whole == grammar::interfaces(t, pos as nat, texts(names@)),
            whole == advanced(grammar::interfaces(t, p as nat, texts(all@)), (p - pos) as nat),
        decreases remaining(t, p as nat),
    {
        match token_at(tokens, p) {
            None => {
                return Err(ParserError::UnexpectedEndOfFile);
            },
            Some(token) => {
                if token.kind == TokenKind::LeftBrace {
                    return Ok((all, p + 1));
                } else if token.kind == TokenKind::Comma {
                    let name = expect_token(tokens, p + 1, TokenKind::Identifier, "")?;
                    push_text(&mut all, name.slice.clone());
                    p = p + 2;
                } else {
                    return Err(unexpected(token));
                }
            },
        }
    }
}

/// The rest of the head of a class after its parent.
pub fn parse_implemented(tokens: &Vec<Token>, pos: usize) -> (r: Result<(Vec<String>, usize), ParserError>)
    ensures
        match r {
            Ok((names, next)) => pos < next <= tokens.len() && grammar::implemented(
                token_views(tokens@),
                pos as nat,
            ) == Ok::<_, ParserErrorView>((texts(names@), (next - pos) as nat)),
            Err(e) => grammar::implemented(token_views(tokens@), pos as nat) == Err::<
                (Seq<Seq<char>>, nat),
                _,
            >(e@),
        },
{
    match token_at(tokens, pos) {
        None => Err(ParserError::UnexpectedEndOfFile),
        Some(token) => if token.kind == TokenKind::LeftBrace {
            let names: Vec<String> = Vec::new();
            assert(texts(names@) =~= Seq::<Seq<char>>::empty());
            Ok((names, pos + 1))
        } else if token.kind == TokenKind::Implements {
            let name = expect_token(tokens, pos + 1, TokenKind::Identifier, "")?;
            let mut names: Vec<String> = Vec::new();
            names.push(name.slice.clone());
            assert(texts(names@) =~= seq![name.slice@]);
            let (all, next) = parse_interfaces(tokens, pos + 2, names)?;
            Ok((all, next))
        } else {
            Err(unexpected(token))
        },
    }
}

/// The head of a class after its name: the parent and the interfaces.
pub fn parse_class_head(tokens: &Vec<Token>, pos: usize) -> (r: Result<
    (String, Vec<String>, usize),
    ParserError,
>)
    ensures
        match r {
            Ok((extends, implements, next)) => pos < next <= tokens.len() && grammar::class_head(
                token_views(tokens@),
                pos as nat,
            ) == Ok::<_, ParserErrorView>(((extends@, texts(implements@)), (next - pos) as nat)),
            Err(e) => grammar::class_head(token_views(tokens@), pos as nat) == Err::<
                ((Seq<char>, Seq<Seq<char>>), nat),
                _,
            >(e@),
        },
{
    match token_at(tokens, pos) {
        None => Err(ParserError::UnexpectedEndOfFile),
        Some(token) => if token.kind == TokenKind::Extends {
            let parent = expect_token(tokens, pos + 1, TokenKind::Identifier, "")?;
            let (names, next) = parse_implemented(tokens, pos + 2)?;
            Ok((parent.slice.clone(), names, next))
        } else {
            let (names, next) = parse_implemented(tokens, pos)?;
            Ok((String::new(), names, next))
        },
    }
}

/// Reads the members of a class up to and with the `}` of its body.
pub fn parse_class_body(tokens: &Vec<Token>, pos: usize) -> (r: Result<
    (Vec<Statement>, usize),
    ParserError,
>)
    ensures
        match r {
            Ok((members, next)) => pos < next && grammar::class_body(
                token_views(tokens@),
                pos as nat,
                Seq::empty(),
            ) == Ok::<_, ParserErrorView>((statement_views(members), (next - pos) as nat)),
            Err(e) => grammar::class_body(token_views(tokens@), pos as nat, Seq::empty()) == Err::<
                (Seq<StatementView>, nat),
                _,
            >(e@),
        },
    decreases remaining(token_views(tokens@), pos as nat), 0nat,
{
    let ghost t = token_views(tokens@);
    let ghost whole = grammar::class_body(t, pos as nat, Seq::empty());
    let mut members = no_statements();
    let mut p = pos;
    loop
        invariant
            pos <= p,
            t == token_views(tokens@),
            whole == grammar::class_body(t, pos as nat, Seq::empty()),
            whole == advanced(
                grammar::class_body(t, p as nat, statement_views(members)),
                (p - pos) as nat,
            ),
        decreases remaining(t, p as nat),
    {
        proof {
            reveal(grammar::class_body);
            reveal(grammar::statement);
        }
        match token_at(tokens, p) {
            None => {
                return Err(ParserError::UnexpectedEndOfFile);
            },
            Some(token) => {
                if token.kind == TokenKind::RightBrace {
                    return Ok((members, p + 1));
                }
                let (s, next) = Parser::match_token(tokens, token, p + 1)?;
                join_member(&mut members, s)?;
                p = next;
            },
        }
    }
}

/// Reads a class after its keyword.
pub fn parse_class(tokens: &Vec<Token>, pos: usize) -> (r: Result<(Statement, usize), ParserError>)
    ensures
        match r {
            Ok((s, next)) => pos < next && grammar::class_statement(
                token_views(tokens@),
                pos as nat,
            ) == Ok::<_, ParserErrorView>((s@, (next - pos) as nat)),
            Err(e) => grammar::class_statement(token_views(tokens@), pos as nat) == Err::<
                (StatementView, nat),
                _,
            >(e@),
        },
        r matches Ok((Statement::Class(class), _)) ==> class@.well_formed(),
    decreases remaining(token_views(tokens@), pos as nat), 8nat,
{
    proof {
        reveal(grammar::class_statement);
        reveal(grammar::class_body);
        lemma_class_well_formed(token_views(tokens@), pos as nat);
    }
    let name = expect_token(tokens, pos, TokenKind::Identifier, "")?;
    let (extends, implements, a_end) = parse_class_head(tokens, pos + 1)?;
    let (body, b_end) = parse_class_body(tokens, a_end)?;
    let class = Class::new(name.slice.clone(), implements, extends, body, Vec::new());
    Ok((Statement::Class(class), b_end))
}

} // verus!
