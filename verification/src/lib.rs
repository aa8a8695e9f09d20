//! A parser that turns a stream of PHP tokens into a syntax tree.
//!
//! The tokens come from a lexer, as a list of [`Token`]s. A [`Parser`]
//! reads them from front to back: statements by recursive descent,
//! expressions by precedence climbing over the table of
//! [`BindingPower`]s. It stops at the first failure, a [`ParserError`].
//!
//! The module `grammar` says what the parser computes, as mathematical
//! functions on the values of the tokens; the functions of the parser are
//! proved to compute exactly that. The modules `laws`, `lookahead` and
//! `extent` hold what is proved of the grammar on all inputs.

use vstd::prelude::*;

pub mod binary_op;
pub mod binding_power;
pub mod class;
pub mod class_parser;
pub mod cursor;
pub mod error;
pub mod expression;
pub mod expression_parser;
pub mod extent;
pub mod flag;
pub mod function;
pub mod function_parser;
pub mod grammar;
pub mod if_statement;
pub mod laws;
pub mod lookahead;
pub mod modifier;
pub mod number;
pub mod parser;
pub mod property;
pub mod statement;
pub mod statement_parser;
pub mod text;
pub mod token;

pub use binary_op::BinaryOp;
pub use binding_power::BindingPower;
pub use class::Class;
pub use error::ParserError;
pub use expression::Expression;
pub use flag::Flag;
pub use flag::Flaggable;
pub use function::ClosureType;
pub use function::Function;
pub use function::FunctionParameter;
pub use if_statement::Else;
pub use if_statement::If;
pub use parser::Parser;
pub use property::Property;
pub use statement::Statement;
pub use token::Token;
pub use token::TokenKind;

verus! {

/// Parses a whole program: the statements that `tokens` make, or the
/// first failure.
pub fn parse(tokens: Vec<Token>) -> (r: Result<Vec<Statement>, ParserError>)
    ensures
        parser::program_view(r) == grammar::program(
            token::token_views(tokens@),
            0,
            Seq::empty(),
        ),
{
    let mut parser = Parser::new(tokens);
    parser.all()
}

} // verus!
