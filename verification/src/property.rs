//! Properties of a class.

use vstd::prelude::*;
use crate::expression::{
    clone_optional_expression, optional_expression_view, Expression, ExpressionView,
};
use crate::flag::{clone_flags, contains_flag, contains_visibility_flag, Flag, Flaggable};
use crate::text::{clone_optional_text, optional_text, starts_with_question_mark};

verus! {

/// A property declaration.
#[derive(Debug, PartialEq)]
pub struct Property {
    pub name: String,
    pub flags: Vec<Flag>,
    /// The declared type; a leading `?` marks it nullable.
    pub type_hint: Option<String>,
    pub default: Option<Expression>,
}

/// The mathematical value of a [`Property`].
pub struct PropertyView {
    pub name: Seq<char>,
    pub flags: Seq<Flag>,
    pub type_hint: Option<Seq<char>>,
    pub default: Option<ExpressionView>,
}

impl PropertyView {
    /// A property is nullable when its type hint begins with `?`.
    pub open spec fn nullable(self) -> bool {
        self.type_hint matches Some(hint) && hint.len() > 0 && hint[0] == '?'
    }
}

impl Property {
    /// The mathematical value of this node.
    pub open spec fn view(&self) -> PropertyView
        decreases self,
    {
        PropertyView {
            name: self.name@,
            flags: self.flags@,
            type_hint: optional_text(self.type_hint),
            default: optional_expression_view(self.default),
        }
    }
}

impl Property {
    pub fn new(
        name: String,
        flags: Vec<Flag>,
        type_hint: Option<String>,
        default: Option<Expression>,
    ) -> (r: Self)
        ensures
            r@ == (PropertyView {
                name: name@,
                flags: flags@,
                type_hint: optional_text(type_hint),
                default: optional_expression_view(default),
            }),
    {
        Property { name, flags, type_hint, default }
    }

    /// Whether the declared type admits `null`.
    pub fn is_nullable(&self) -> (r: bool)
        ensures
            r == self@.nullable(),
    {
        match &self.type_hint {
            Some(hint) => starts_with_question_mark(hint.as_str()),
            None => false,
        }
    }
}

impl Flaggable for Property {
    open spec fn flag_list(&self) -> Seq<Flag> {
        self.flags@
    }

    fn add_flag(&mut self, flag: Flag)
        ensures
            final(self)@ == (PropertyView { flags: old(self)@.flags.push(flag), ..old(self)@ }),
    {
        self.flags.push(flag)
    }

    fn has_flag(&self, flag: Flag) -> (r: bool) {
        contains_flag(&self.flags, flag)
    }

    fn has_flags(&self) -> (r: bool) {
        self.flags.len() > 0
    }

    fn has_visiblity_flag(&self) -> (r: bool) {
        contains_visibility_flag(&self.flags)
    }
}

impl Clone for Property {
    /// A copy of the same value.
    fn clone(&self) -> (r: Self)
        ensures
            r@ == self@,
        decreases self,
    {
        Property {
            name: self.name.clone(),
            flags: clone_flags(&self.flags),
            type_hint: clone_optional_text(&self.type_hint),
            default: clone_optional_expression(&self.default),
        }
    }
}

} // verus!
