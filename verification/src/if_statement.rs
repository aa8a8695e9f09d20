//! Conditionals.

use vstd::prelude::*;
use crate::expression::{Expression, ExpressionView};
use crate::statement::{clone_statements, statement_views, Statement, StatementView};

verus! {

/// An `if` with its chain of `elseif` arms and its `else`.
#[derive(Debug, PartialEq)]
pub struct If {
    pub condition: Expression,
    /// The statements run when the condition holds.
    pub then_body: Vec<Statement>,
    /// The `elseif` arms, each a `Statement::ElseIf`, in source order.
    pub else_ifs: Vec<Statement>,
    /// The closing `else`, a `Statement::Else`.
    pub else_branch: Option<Box<Statement>>,
}

/// The mathematical value of an [`If`].
pub struct IfView {
    pub condition: ExpressionView,
    pub then_body: Seq<StatementView>,
    pub else_ifs: Seq<StatementView>,
    pub else_branch: Option<Box<StatementView>>,
}

/// The closing `else` of a conditional.
#[derive(Debug, PartialEq)]
pub struct Else {
    pub then_body: Vec<Statement>,
}

/// The mathematical value of an [`Else`].
pub struct ElseView {
    pub then_body: Seq<StatementView>,
}

/// The value of an optional boxed statement.
pub open spec fn optional_statement_view(o: Option<Box<Statement>>) -> Option<Box<StatementView>>
    decreases o,
{
    match o {
        Some(s) => Some(Box::new((*s).view())),
        None => None,
    }
}

impl If {
    /// The mathematical value of this node.
    pub open spec fn view(&self) -> IfView
        decreases self,
    {
        IfView {
            condition: self.condition.view(),
            then_body: statement_views(self.then_body),
            else_ifs: statement_views(self.else_ifs),
            else_branch: optional_statement_view(self.else_branch),
        }
    }
}

impl Else {
    /// The mathematical value of this node.
    pub open spec fn view(&self) -> ElseView
        decreases self,
    {
        ElseView { then_body: statement_views(self.then_body) }
    }
}

impl If {
    pub fn new(
        condition: Expression,
        then_body: Vec<Statement>,
        else_ifs: Vec<Statement>,
        else_branch: Option<Box<Statement>>,
    ) -> (r: Self)
        ensures
            r@ == (IfView {
                condition: condition@,
                then_body: statement_views(then_body),
                else_ifs: statement_views(else_ifs),
                else_branch: optional_statement_view(else_branch),
            }),
    {
        If { condition, then_body, else_ifs, else_branch }
    }
}

impl Else {
    pub fn new(then_body: Vec<Statement>) -> (r: Self)
        ensures
            r@ == (ElseView { then_body: statement_views(then_body) }),
    {
        Else { then_body }
    }
}

impl Clone for If {
    /// A copy of the same value.
    fn clone(&self) -> (r: Self)
        ensures
            r@ == self@,
        decreases self,
    {
        If {
            condition: self.condition.clone(),
            then_body: clone_statements(&self.then_body),
            else_ifs: clone_statements(&self.else_ifs),
            else_branch: match &self.else_branch {
                Some(s) => Some(Box::new((**s).clone())),
                None => None,
            },
        }
    }
}

impl Clone for Else {
    /// A copy of the same value.
    fn clone(&self) -> (r: Self)
        ensures
            r@ == self@,
        decreases self,
    {
        Else { then_body: clone_statements(&self.then_body) }
    }
}

} // verus!
