//! Expressions.

use vstd::prelude::*;
use vstd::std_specs::convert::FromSpecImpl;
use crate::binary_op::{binary_op_of, BinaryOp};
use crate::function::{Function, FunctionView};
use crate::token::TokenKind;

verus! {

/// An expression of the syntax tree. Every node owns its children.
#[derive(Debug, PartialEq)]
pub enum Expression {
    True,
    False,
    Null,
    String(String),
    Integer(i64),
    /// A floating point number, as its IEEE 754 binary64 bit pattern.
    Float(u64),
    Variable(String),
    TypedVariable(String, String),
    Identifier(String),
    Binary(Box<Expression>, BinaryOp, Box<Expression>),
    Assign(Box<Expression>, Box<Expression>),
    Concat(Box<Expression>, Box<Expression>),
    Array(Vec<Expression>),
    /// An index into `0`; without an index it stands for appending.
    ArrayAccess(Box<Expression>, Option<Box<Expression>>),
    ArrayItem { key: Box<Expression>, value: Box<Expression> },
    PropertyAccess(Box<Expression>, Box<Expression>),
    New { class: Box<Expression>, args: Vec<Expression> },
    Call { target: Box<Expression>, args: Vec<Expression> },
    MethodCall { target: Box<Expression>, method: Box<Expression>, args: Vec<Expression> },
    Closure(Function),
    /// Arithmetic negation.
    Unary(Box<Expression>),
    /// Logical not.
    Negate(Box<Expression>),
    BitwiseNot(Box<Expression>),
}

/// The mathematical value of an [`Expression`].
pub enum ExpressionView {
    True,
    False,
    Null,
    String(Seq<char>),
    Integer(i64),
    Float(u64),
    Variable(Seq<char>),
    TypedVariable(Seq<char>, Seq<char>),
    Identifier(Seq<char>),
    Binary(Box<ExpressionView>, BinaryOp, Box<ExpressionView>),
    Assign(Box<ExpressionView>, Box<ExpressionView>),
    Concat(Box<ExpressionView>, Box<ExpressionView>),
    Array(Seq<ExpressionView>),
    ArrayAccess(Box<ExpressionView>, Option<Box<ExpressionView>>),
    ArrayItem { key: Box<ExpressionView>, value: Box<ExpressionView> },
    PropertyAccess(Box<ExpressionView>, Box<ExpressionView>),
    New { class: Box<ExpressionView>, args: Seq<ExpressionView> },
    Call { target: Box<ExpressionView>, args: Seq<ExpressionView> },
    MethodCall { target: Box<ExpressionView>, method: Box<ExpressionView>, args: Seq<ExpressionView> },
    Closure(FunctionView),
    Unary(Box<ExpressionView>),
    Negate(Box<ExpressionView>),
    BitwiseNot(Box<ExpressionView>),
}

/// The values of a list of expressions.
pub open spec fn expression_views(v: Vec<Expression>) -> Seq<ExpressionView>
    decreases v,
{
    Seq::new(
        v.len() as nat,
        |i: int|
            if 0 <= i < v.len() {
                v[i].view()
            } else {
                arbitrary()
            },
    )
}

/// The value of an optional expression.
pub open spec fn optional_expression_view(o: Option<Expression>) -> Option<ExpressionView>
    decreases o,
{
    match o {
        Some(e) => Some(e.view()),
        None => None,
    }
}

impl Expression {
    /// The mathematical value of this node.
    pub open spec fn view(&self) -> ExpressionView
        decreases self,
    {
        match self {
            Expression::True => ExpressionView::True,
            Expression::False => ExpressionView::False,
            Expression::Null => ExpressionView::Null,
            Expression::String(s) => ExpressionView::String(s@),
            Expression::Integer(n) => ExpressionView::Integer(*n),
            Expression::Float(bits) => ExpressionView::Float(*bits),
            Expression::Variable(s) => ExpressionView::Variable(s@),
            Expression::TypedVariable(t, s) => ExpressionView::TypedVariable(t@, s@),
            Expression::Identifier(s) => ExpressionView::Identifier(s@),
            Expression::Binary(l, op, r) => ExpressionView::Binary(
                Box::new((**l).view()),
                *op,
                Box::new((**r).view()),
            ),
            Expression::Assign(l, r) => ExpressionView::Assign(
                Box::new((**l).view()),
                Box::new((**r).view()),
            ),
            Expression::Concat(l, r) => ExpressionView::Concat(
                Box::new((**l).view()),
                Box::new((**r).view()),
            ),
            Expression::Array(items) => ExpressionView::Array(expression_views(*items)),
            Expression::ArrayAccess(target, None) => ExpressionView::ArrayAccess(
                Box::new((**target).view()),
                None,
            ),
            Expression::ArrayAccess(target, Some(index)) => ExpressionView::ArrayAccess(
                Box::new((**target).view()),
                Some(Box::new((**index).view())),
            ),
            Expression::ArrayItem { key, value } => ExpressionView::ArrayItem {
                key: Box::new((**key).view()),
                value: Box::new((**value).view()),
            },
            Expression::PropertyAccess(target, property) => ExpressionView::PropertyAccess(
                Box::new((**target).view()),
                Box::new((**property).view()),
            ),
            Expression::New { class, args } => ExpressionView::New {
                class: Box::new((**class).view()),
                args: expression_views(*args),
            },
            Expression::Call { target, args } => ExpressionView::Call {
                target: Box::new((**target).view()),
                args: expression_views(*args),
            },
            Expression::MethodCall { target, method, args } => ExpressionView::MethodCall {
                target: Box::new((**target).view()),
                method: Box::new((**method).view()),
                args: expression_views(*args),
            },
            Expression::Closure(function) => ExpressionView::Closure(function.view()),
            Expression::Unary(e) => ExpressionView::Unary(Box::new((**e).view())),
            Expression::Negate(e) => ExpressionView::Negate(Box::new((**e).view())),
            Expression::BitwiseNot(e) => ExpressionView::BitwiseNot(Box::new((**e).view())),
        }
    }
}

/// Whether an infix token of this kind joins two expressions into one.
pub open spec fn combines(kind: TokenKind) -> bool {
    kind == TokenKind::Period || kind == TokenKind::DoubleArrow || kind == TokenKind::Equals
        || binary_op_of(kind) is Some
}

/// The expression that the infix operator `kind` makes of its two operands:
/// a concatenation for `.`, an array item for `=>`, an assignment for `=`,
/// and a binary expression for every operator token.
pub open spec fn combined(lhs: ExpressionView, kind: TokenKind, rhs: ExpressionView) -> ExpressionView
    recommends
        combines(kind),
{
    match kind {
        TokenKind::Period => ExpressionView::Concat(Box::new(lhs), Box::new(rhs)),
        TokenKind::DoubleArrow => ExpressionView::ArrayItem { key: Box::new(lhs), value: Box::new(rhs) },
        TokenKind::Equals => ExpressionView::Assign(Box::new(lhs), Box::new(rhs)),
        _ => ExpressionView::Binary(Box::new(lhs), binary_op_of(kind).unwrap(), Box::new(rhs)),
    }
}

impl Expression {
    /// Joins two operands by an infix operator.
    pub fn make_infix(lhs: Expression, operator: &TokenKind, rhs: Expression) -> (r: Expression)
        requires
            combines(*operator),
        ensures
            r@ == combined(lhs@, *operator, rhs@),
    {
        let lhs = Box::new(lhs);
        let rhs = Box::new(rhs);
        match *operator {
            TokenKind::Period => Expression::Concat(lhs, rhs),
            TokenKind::DoubleArrow => Expression::ArrayItem { key: lhs, value: rhs },
            TokenKind::Equals => Expression::Assign(lhs, rhs),
            _ => Expression::Binary(lhs, BinaryOp::from(*operator), rhs),
        }
    }
}

impl From<bool> for Expression {
    fn from(value: bool) -> (r: Expression) {
        match value {
            true => Expression::True,
            false => Expression::False,
        }
    }
}

impl FromSpecImpl<bool> for Expression {
    open spec fn obeys_from_spec() -> bool {
        true
    }

    open spec fn from_spec(value: bool) -> Expression {
        if value {
            Expression::True
        } else {
            Expression::False
        }
    }
}

/// An empty list of expressions.
pub fn no_expressions() -> (r: Vec<Expression>)
    ensures
        expression_views(r) == Seq::<ExpressionView>::empty(),
{
    let r = Vec::new();
    assert(expression_views(r) =~= Seq::<ExpressionView>::empty());
    r
}

/// Appends an expression to a list.
pub fn push_expression(list: &mut Vec<Expression>, e: Expression)
    ensures
        expression_views(*final(list)) == expression_views(*old(list)).push(e@),
{
    list.push(e);
    assert(expression_views(*list) =~= expression_views(*old(list)).push(e@));
}

/// A copy of a list of expressions.
pub fn clone_expressions(v: &Vec<Expression>) -> (r: Vec<Expression>)
    ensures
        expression_views(r) == expression_views(*v),
    decreases v,
{
    let mut r = no_expressions();
    let mut i: usize = 0;
    while i < v.len()
        invariant
            i <= v.len(),
            expression_views(r) == expression_views(*v).subrange(0, i as int),
        decreases v.len() - i,
    {
        let e = v[i].clone();
        push_expression(&mut r, e);
        assert(expression_views(r) =~= expression_views(*v).subrange(0, i + 1));
        i += 1;
    }
    assert(expression_views(*v).subrange(0, v.len() as int) =~= expression_views(*v));
    r
}

/// A copy of an optional expression.
pub fn clone_optional_expression(o: &Option<Expression>) -> (r: Option<Expression>)
    ensures
        optional_expression_view(r) == optional_expression_view(*o),
    decreases o,
{
    match o {
        Some(e) => Some(e.clone()),
        None => None,
    }
}

impl Clone for Expression {
    /// A copy of the same value.
    fn clone(&self) -> (r: Self)
        ensures
            r@ == self@,
        decreases self,
    {
        match self {
            Expression::True => Expression::True,
            Expression::False => Expression::False,
            Expression::Null => Expression::Null,
            Expression::String(s) => Expression::String(s.clone()),
            Expression::Integer(n) => Expression::Integer(*n),
            Expression::Float(bits) => Expression::Float(*bits),
            Expression::Variable(s) => Expression::Variable(s.clone()),
            Expression::TypedVariable(t, s) => Expression::TypedVariable(t.clone(), s.clone()),
            Expression::Identifier(s) => Expression::Identifier(s.clone()),
            Expression::Binary(l, op, r) => Expression::Binary(
                Box::new((**l).clone()),
                *op,
                Box::new((**r).clone()),
            ),
            Expression::Assign(l, r) => Expression::Assign(
                Box::new((**l).clone()),
                Box::new((**r).clone()),
            ),
            Expression::Concat(l, r) => Expression::Concat(
                Box::new((**l).clone()),
                Box::new((**r).clone()),
            ),
            Expression::Array(items) => Expression::Array(clone_expressions(items)),
            Expression::ArrayAccess(target, None) => Expression::ArrayAccess(
                Box::new((**target).clone()),
                None,
            ),
            Expression::ArrayAccess(target, Some(index)) => Expression::ArrayAccess(
                Box::new((**target).clone()),
                Some(Box::new((**index).clone())),
            ),
            Expression::ArrayItem { key, value } => Expression::ArrayItem {
                key: Box::new((**key).clone()),
                value: Box::new((**value).clone()),
            },
            Expression::PropertyAccess(target, property) => Expression::PropertyAccess(
                Box::new((**target).clone()),
                Box::new((**property).clone()),
            ),
            Expression::New { class, args } => Expression::New {
                class: Box::new((**class).clone()),
                args: clone_expressions(args),
            },
            Expression::Call { target, args } => Expression::Call {
                target: Box::new((**target).clone()),
                args: clone_expressions(args),
            },
            Expression::MethodCall { target, method, args } => Expression::MethodCall {
                target: Box::new((**target).clone()),
                method: Box::new((**method).clone()),
                args: clone_expressions(args),
            },
            Expression::Closure(function) => Expression::Closure(function.clone()),
            Expression::Unary(e) => Expression::Unary(Box::new((**e).clone())),
            Expression::Negate(e) => Expression::Negate(Box::new((**e).clone())),
            Expression::BitwiseNot(e) => Expression::BitwiseNot(Box::new((**e).clone())),
        }
    }
}

} // verus!
