//! Functions, closures and their parameters.

use vstd::prelude::*;
use crate::expression::{
    clone_optional_expression, optional_expression_view, Expression, ExpressionView,
};
use crate::flag::{clone_flags, contains_flag, contains_visibility_flag, Flag, Flaggable};
use crate::statement::{clone_statements, statement_views, Statement, StatementView};
use crate::text::{clone_optional_text, optional_text};

verus! {

/// The two forms of a closure.
#[derive(Clone, Copy, Debug, PartialEq, Eq, Hash, Structural)]
pub enum ClosureType {
    /// `function (...) { ... }`
    Long,
    /// `fn (...) => ...`
    Short,
}

/// A named function or a closure.
#[derive(Debug, PartialEq)]
pub struct Function {
    /// The name; a closure has none.
    pub name: Option<String>,
    pub parameters: Vec<FunctionParameter>,
    pub body: Vec<Statement>,
    pub return_type_hint: Option<String>,
    pub flags: Vec<Flag>,
    /// The form of the closure; a named function has none.
    pub closure_type: Option<ClosureType>,
}

/// The mathematical value of a [`Function`].
pub struct FunctionView {
    pub name: Option<Seq<char>>,
    pub parameters: Seq<FunctionParameterView>,
    pub body: Seq<StatementView>,
    pub return_type_hint: Option<Seq<char>>,
    pub flags: Seq<Flag>,
    pub closure_type: Option<ClosureType>,
}

/// One parameter of a function.
#[derive(Debug, PartialEq)]
pub struct FunctionParameter {
    pub name: String,
    pub type_hint: Option<String>,
    pub default: Option<Expression>,
}

/// The mathematical value of a [`FunctionParameter`].
pub struct FunctionParameterView {
    pub name: Seq<char>,
    pub type_hint: Option<Seq<char>>,
    pub default: Option<ExpressionView>,
}

/// The values of a list of parameters.
pub open spec fn parameter_views(v: Vec<FunctionParameter>) -> Seq<FunctionParameterView>
    decreases v,
{
    Seq::new(
        v.len() as nat,
        |i: int|
            if 0 <= i < v.len() {
                v[i].view()
            } else {
                arbitrary()
            },
    )
}

impl FunctionParameter {
    /// The mathematical value of this node.
    pub open spec fn view(&self) -> FunctionParameterView
        decreases self,
    {
        FunctionParameterView {
            name: self.name@,
            type_hint: optional_text(self.type_hint),
            default: optional_expression_view(self.default),
        }
    }
}

impl Function {
    /// The mathematical value of this node.
    pub open spec fn view(&self) -> FunctionView
        decreases self,
    {
        FunctionView {
            name: optional_text(self.name),
            parameters: parameter_views(self.parameters),
            body: statement_views(self.body),
            return_type_hint: optional_text(self.return_type_hint),
            flags: self.flags@,
            closure_type: self.closure_type,
        }
    }
}

impl FunctionParameter {
    pub fn new(name: String, type_hint: Option<String>, default: Option<Expression>) -> (r: Self)
        ensures
            r@ == (FunctionParameterView {
                name: name@,
                type_hint: optional_text(type_hint),
                default: optional_expression_view(default),
            }),
    {
        FunctionParameter { name, type_hint, default }
    }
}

impl Function {
    pub fn new(
        name: Option<String>,
        parameters: Vec<FunctionParameter>,
        body: Vec<Statement>,
        return_type_hint: Option<String>,
        flags: Vec<Flag>,
        closure_type: Option<ClosureType>,
    ) -> (r: Self)
        ensures
            r@ == (FunctionView {
                name: optional_text(name),
                parameters: parameter_views(parameters),
                body: statement_views(body),
                return_type_hint: optional_text(return_type_hint),
                flags: flags@,
                closure_type,
            }),
    {
        Function { name, parameters, body, return_type_hint, flags, closure_type }
    }
}

impl Flaggable for Function {
    open spec fn flag_list(&self) -> Seq<Flag> {
        self.flags@
    }

    fn add_flag(&mut self, flag: Flag)
        ensures
            final(self)@ == (FunctionView { flags: old(self)@.flags.push(flag), ..old(self)@ }),
    {
        self.flags.push(flag)
    }

    fn has_flag(&self, flag: Flag) -> (r: bool) {
        contains_flag(&self.flags, flag)
    }

    fn has_flags(&self) -> (r: bool) {
        self.flags.len() > 0
    }

    fn has_visiblity_flag(&self) -> (r: bool) {
        contains_visibility_flag(&self.flags)
    }
}

/// An empty list of parameters.
pub fn no_parameters() -> (r: Vec<FunctionParameter>)
    ensures
        parameter_views(r) == Seq::<FunctionParameterView>::empty(),
{
    let r = Vec::new();
    assert(parameter_views(r) =~= Seq::<FunctionParameterView>::empty());
    r
}

/// Appends a parameter to a list.
pub fn push_parameter(list: &mut Vec<FunctionParameter>, p: FunctionParameter)
    ensures
        parameter_views(*final(list)) == parameter_views(*old(list)).push(p@),
{
    list.push(p);
    assert(parameter_views(*list) =~= parameter_views(*old(list)).push(p@));
}

/// A copy of a list of parameters.
pub fn clone_parameters(v: &Vec<FunctionParameter>) -> (r: Vec<FunctionParameter>)
    ensures
        parameter_views(r) == parameter_views(*v),
    decreases v,
{
    let mut r = no_parameters();
    let mut i: usize = 0;
    while i < v.len()
        invariant
            i <= v.len(),
            parameter_views(r) == parameter_views(*v).subrange(0, i as int),
        decreases v.len() - i,
    {
        let p = v[i].clone();
        push_parameter(&mut r, p);
        assert(parameter_views(r) =~= parameter_views(*v).subrange(0, i + 1));
        i += 1;
    }
    assert(parameter_views(*v).subrange(0, v.len() as int) =~= parameter_views(*v));
    r
}

impl Clone for FunctionParameter {
    /// A copy of the same value.
    fn clone(&self) -> (r: Self)
        ensures
            r@ == self@,
        decreases self,
    {
        FunctionParameter {
            name: self.name.clone(),
            type_hint: clone_optional_text(&self.type_hint),
            default: clone_optional_expression(&self.default),
        }
    }
}

impl Clone for Function {
    /// A copy of the same value.
    fn clone(&self) -> (r: Self)
        ensures
            r@ == self@,
        decreases self,
    {
        Function {
            name: clone_optional_text(&self.name),
            parameters: clone_parameters(&self.parameters),
            body: clone_statements(&self.body),
            return_type_hint: clone_optional_text(&self.return_type_hint),
            flags: clone_flags(&self.flags),
            closure_type: self.closure_type,
        }
    }
}

} // verus!
