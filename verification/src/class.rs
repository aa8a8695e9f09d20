//! Classes.

use vstd::prelude::*;
use crate::flag::{clone_flags, contains_flag, contains_visibility_flag, Flag, Flaggable};
use crate::statement::{clone_statements, statement_views, Statement, StatementView};
use crate::text::{clone_texts, texts};

verus! {

/// A class declaration.
#[derive(Debug, PartialEq)]
pub struct Class {
    pub name: String,
    /// The names of the interfaces, in source order.
    pub implements: Vec<String>,
    /// The name of the parent class; empty where there is none.
    pub extends: String,
    /// The members: functions, properties and trait uses.
    pub body: Vec<Statement>,
    pub flags: Vec<Flag>,
}

/// The mathematical value of a [`Class`].
pub struct ClassView {
    pub name: Seq<char>,
    pub implements: Seq<Seq<char>>,
    pub extends: Seq<char>,
    pub body: Seq<StatementView>,
    pub flags: Seq<Flag>,
}

/// Whether no two functions and no two properties among `members` have
/// one name, and every member is a function, a property or the use of a
/// trait.
pub open spec fn well_formed_members(members: Seq<StatementView>) -> bool {
    &&& forall|i: int|
        0 <= i < members.len() ==> (#[trigger] members[i]) is Function || members[i] is Property
            || members[i] is UseTrait
    &&& forall|i: int, j: int|
        0 <= i < j < members.len() ==> !((#[trigger] members[i]) matches StatementView::Function(f)
            && (#[trigger] members[j]) matches StatementView::Function(g) && f.name == g.name)
    &&& forall|i: int, j: int|
        0 <= i < j < members.len() ==> !((#[trigger] members[i]) matches StatementView::Property(p)
            && (#[trigger] members[j]) matches StatementView::Property(q) && p.name == q.name)
}

impl ClassView {
    /// Whether the body of the class is well-formed: the members are
    /// functions, properties and uses of traits, and no two functions and
    /// no two properties have one name. The parser makes well-formed
    /// classes only.
    pub open spec fn well_formed(self) -> bool {
        well_formed_members(self.body)
    }
}

impl Class {
    /// The mathematical value of this node.
    pub open spec fn view(&self) -> ClassView
        decreases self,
    {
        ClassView {
            name: self.name@,
            implements: texts(self.implements@),
            extends: self.extends@,
            body: statement_views(self.body),
            flags: self.flags@,
        }
    }
}

impl Class {
    pub fn new(
        name: String,
        implements: Vec<String>,
        extends: String,
        body: Vec<Statement>,
        flags: Vec<Flag>,
    ) -> (r: Self)
        ensures
            r@ == (ClassView {
                name: name@,
                implements: texts(implements@),
                extends: extends@,
                body: statement_views(body),
                flags: flags@,
            }),
    {
        Class { name, implements, extends, body, flags }
    }
}

impl Flaggable for Class {
    open spec fn flag_list(&self) -> Seq<Flag> {
        self.flags@
    }

    fn add_flag(&mut self, flag: Flag)
        ensures
            final(self)@ == (ClassView { flags: old(self)@.flags.push(flag), ..old(self)@ }),
    {
        self.flags.push(flag)
    }

    fn has_flag(&self, flag: Flag) -> (r: bool) {
        contains_flag(&self.flags, flag)
    }

    fn has_flags(&self) -> (r: bool) {
        self.flags.len() > 0
    }

    fn has_visiblity_flag(&self) -> (r: bool) {
        contains_visibility_flag(&self.flags)
    }
}

impl Clone for Class {
    /// A copy of the same value.
    fn clone(&self) -> (r: Self)
        ensures
            r@ == self@,
        decreases self,
    {
        Class {
            name: self.name.clone(),
            implements: clone_texts(&self.implements),
            extends: self.extends.clone(),
            body: clone_statements(&self.body),
            flags: clone_flags(&self.flags),
        }
    }
}

} // verus!
