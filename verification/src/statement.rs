//! Statements.

use vstd::prelude::*;
use crate::class::{Class, ClassView};
use crate::expression::{
    clone_optional_expression, optional_expression_view, Expression, ExpressionView,
};
use crate::function::{Function, FunctionView};
use crate::if_statement::{Else, ElseView, If, IfView};
use crate::property::{Property, PropertyView};

verus! {

/// A statement of the syntax tree.
#[derive(Debug, PartialEq)]
pub enum Statement {
    OpenTag,
    Break,
    Continue(Option<Expression>),
    DocBlock(String),
    Echo(Expression),
    Return(Expression),
    Expression(Expression),
    Function(Function),
    Class(Class),
    Property(Property),
    If(If),
    Else(Else),
    /// One `elseif` arm of a conditional.
    ElseIf(If),
    While { condition: Expression, body: Vec<Statement> },
    DoWhile { condition: Expression, body: Vec<Statement> },
    Foreach {
        expression: Expression,
        key_var: Option<Expression>,
        value_var: Expression,
        body: Vec<Statement>,
    },
    Use(Expression),
    UseTrait(Expression),
}

/// The mathematical value of a [`Statement`].
pub enum StatementView {
    OpenTag,
    Break,
    Continue(Option<ExpressionView>),
    DocBlock(Seq<char>),
    Echo(ExpressionView),
    Return(ExpressionView),
    Expression(ExpressionView),
    Function(FunctionView),
    Class(ClassView),
    Property(PropertyView),
    If(IfView),
    Else(ElseView),
    ElseIf(IfView),
    While { condition: ExpressionView, body: Seq<StatementView> },
    DoWhile { condition: ExpressionView, body: Seq<StatementView> },
    Foreach {
        expression: ExpressionView,
        key_var: Option<ExpressionView>,
        value_var: ExpressionView,
        body: Seq<StatementView>,
    },
    Use(ExpressionView),
    UseTrait(ExpressionView),
}

/// The values of a list of statements.
pub open spec fn statement_views(v: Vec<Statement>) -> Seq<StatementView>
    decreases v,
{
    Seq::new(
        v.len() as nat,
        |i: int|
            if 0 <= i < v.len() {
                v[i].view()
            } else {
                arbitrary()
            },
    )
}

impl Statement {
    /// The mathematical value of this node.
    pub open spec fn view(&self) -> StatementView
        decreases self,
    {
        match self {
            Statement::OpenTag => StatementView::OpenTag,
            Statement::Break => StatementView::Break,
            Statement::Continue(e) => StatementView::Continue(optional_expression_view(*e)),
            Statement::DocBlock(s) => StatementView::DocBlock(s@),
            Statement::Echo(e) => StatementView::Echo(e.view()),
            Statement::Return(e) => StatementView::Return(e.view()),
            Statement::Expression(e) => StatementView::Expression(e.view()),
            Statement::Function(f) => StatementView::Function(f.view()),
            Statement::Class(c) => StatementView::Class(c.view()),
            Statement::Property(p) => StatementView::Property(p.view()),
            Statement::If(i) => StatementView::If(i.view()),
            Statement::Else(e) => StatementView::Else(e.view()),
            Statement::ElseIf(i) => StatementView::ElseIf(i.view()),
            Statement::While { condition, body } => StatementView::While {
                condition: condition.view(),
                body: statement_views(*body),
            },
            Statement::DoWhile { condition, body } => StatementView::DoWhile {
                condition: condition.view(),
                body: statement_views(*body),
            },
            Statement::Foreach { expression, key_var, value_var, body } => StatementView::Foreach {
                expression: expression.view(),
                key_var: optional_expression_view(*key_var),
                value_var: value_var.view(),
                body: statement_views(*body),
            },
            Statement::Use(e) => StatementView::Use(e.view()),
            Statement::UseTrait(e) => StatementView::UseTrait(e.view()),
        }
    }
}

/// An empty list of statements.
pub fn no_statements() -> (r: Vec<Statement>)
    ensures
        statement_views(r) == Seq::<StatementView>::empty(),
{
    let r = Vec::new();
    assert(statement_views(r) =~= Seq::<StatementView>::empty());
    r
}

/// Appends a statement to a list.
pub fn push_statement(list: &mut Vec<Statement>, s: Statement)
    ensures
        statement_views(*final(list)) == statement_views(*old(list)).push(s@),
{
    list.push(s);
    assert(statement_views(*list) =~= statement_views(*old(list)).push(s@));
}

/// A copy of a list of statements.
pub fn clone_statements(v: &Vec<Statement>) -> (r: Vec<Statement>)
    ensures
        statement_views(r) == statement_views(*v),
    decreases v,
{
    let mut r = no_statements();
    let mut i: usize = 0;
    while i < v.len()
        invariant
            i <= v.len(),
            statement_views(r) == statement_views(*v).subrange(0, i as int),
        decreases v.len() - i,
    {
        let s = v[i].clone();
        push_statement(&mut r, s);
        assert(statement_views(r) =~= statement_views(*v).subrange(0, i + 1));
        i += 1;
    }
    assert(statement_views(*v).subrange(0, v.len() as int) =~= statement_views(*v));
    r
}

impl Clone for Statement {
    /// A copy of the same value.
    fn clone(&self) -> (r: Self)
        ensures
            r@ == self@,
        decreases self,
    {
        match self {
            Statement::OpenTag => Statement::OpenTag,
            Statement::Break => Statement::Break,
            Statement::Continue(e) => Statement::Continue(clone_optional_expression(e)),
            Statement::DocBlock(s) => Statement::DocBlock(s.clone()),
            Statement::Echo(e) => Statement::Echo(e.clone()),
            Statement::Return(e) => Statement::Return(e.clone()),
            Statement::Expression(e) => Statement::Expression(e.clone()),
            Statement::Function(f) => Statement::Function(f.clone()),
            Statement::Class(c) => Statement::Class(c.clone()),
            Statement::Property(p) => Statement::Property(p.clone()),
            Statement::If(i) => Statement::If(i.clone()),
            Statement::Else(e) => Statement::Else(e.clone()),
            Statement::ElseIf(i) => Statement::ElseIf(i.clone()),
            Statement::While { condition, body } => Statement::While {
                condition: condition.clone(),
                body: clone_statements(body),
            },
            Statement::DoWhile { condition, body } => Statement::DoWhile {
                condition: condition.clone(),
                body: clone_statements(body),
            },
            Statement::Foreach { expression, key_var, value_var, body } => Statement::Foreach {
                expression: expression.clone(),
                key_var: clone_optional_expression(key_var),
                value_var: value_var.clone(),
                body: clone_statements(body),
            },
            Statement::Use(e) => Statement::Use(e.clone()),
            Statement::UseTrait(e) => Statement::UseTrait(e.clone()),
        }
    }
}

} // verus!
