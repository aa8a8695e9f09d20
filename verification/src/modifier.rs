//! Modifiers and the statements that take them.

use vstd::prelude::*;
use vstd::string::*;
use crate::error::{ParserError, ParserErrorView};
use crate::expression::Expression;
use crate::flag::{Flag, Flaggable};
use crate::grammar;
use crate::property::Property;
use crate::statement::{Statement, StatementView};
use crate::token::TokenKind;

verus! {

/// The flag that a modifier token stands for.
pub fn flag_of(kind: TokenKind) -> (r: Option<Flag>)
    ensures
        r == grammar::flag_of(kind),
{
    match kind {
        TokenKind::Public => Some(Flag::Public),
        TokenKind::Protected => Some(Flag::Protected),
        TokenKind::Private => Some(Flag::Private),
        TokenKind::Final => Some(Flag::Final),
        TokenKind::Abstract => Some(Flag::Abstract),
        TokenKind::Static => Some(Flag::Static),
        _ => None,
    }
}

/// Puts a flag on the statement that followed its modifier.
pub fn attach_flag(flag: Flag, statement: Statement) -> (r: Result<Statement, ParserError>)
    ensures
        match r {
            Ok(s) => grammar::attached(flag, statement@) == Ok::<_, ParserErrorView>(s@),
            Err(e) => grammar::attached(flag, statement@) == Err::<StatementView, _>(e@),
        },
{
    match statement {
        Statement::Function(mut function) => {
            if flag == Flag::Final && function.has_flag(Flag::Abstract) {
                return Err(ParserError::FlagNotAllowed(flag, "abstract methods.".to_owned()));
            }
            if flag == Flag::Abstract && function.has_flag(Flag::Final) {
                return Err(ParserError::FlagNotAllowed(flag, "final methods".to_owned()));
            }
            function.add_flag(flag);
            Ok(Statement::Function(function))
        },
        Statement::Class(mut class) => {
            if flag == Flag::Final && class.has_flag(Flag::Abstract) {
                return Err(ParserError::FlagNotAllowed(flag, "abstract classes.".to_owned()));
            }
            if flag == Flag::Abstract && class.has_flag(Flag::Final) {
                return Err(ParserError::FlagNotAllowed(flag, "final classes.".to_owned()));
            }
            class.add_flag(flag);
            Ok(Statement::Class(class))
        },
        Statement::Expression(Expression::TypedVariable(type_hint, variable)) => {
            let mut flags = Vec::new();
            flags.push(flag);
            assert(flags@ =~= seq![flag]);
            Ok(Statement::Property(Property::new(variable, flags, Some(type_hint), None)))
        },
        Statement::Property(mut property) => {
            if flag == Flag::Final || flag == Flag::Abstract {
                return Err(ParserError::FlagNotAllowed(flag, "properties".to_owned()));
            }
            if property.has_flag(flag) {
                return Err(ParserError::DuplicateFlag(flag));
            }
            if flag.is_visibility_flag() && property.has_visiblity_flag() {
                return Err(
                    ParserError::FlagNotAllowed(
                        flag,
                        "properties with existing visiblity flags".to_owned(),
                    ),
                );
            }
            property.add_flag(flag);
            Ok(Statement::Property(property))
        },
        _ => Err(ParserError::Unknown),
    }
}

} // verus!
