//! Declaration modifiers and the types that carry them.

use vstd::prelude::*;

verus! {

/// A modifier that a class, function or property declaration can carry.
#[derive(Clone, Copy, Debug, PartialEq, Eq, Hash, Structural)]
pub enum Flag {
    Final,
    Public,
    Protected,
    Private,
    Static,
    Abstract,
}

impl Flag {
    /// The visibility flags are `Public`, `Protected` and `Private`.
    pub open spec fn visibility(self) -> bool {
        self == Flag::Public || self == Flag::Protected || self == Flag::Private
    }

    /// Tells whether this flag sets the visibility of a member.
    pub fn is_visibility_flag(&self) -> (r: bool)
        ensures
            r == self.visibility(),
    {
        match self {
            Flag::Public | Flag::Protected | Flag::Private => true,
            _ => false,
        }
    }
}

/// Whether some flag of `flags` is a visibility flag.
pub open spec fn any_visibility(flags: Seq<Flag>) -> bool {
    exists|i: int| 0 <= i < flags.len() && (#[trigger] flags[i]).visibility()
}

/// A declaration that carries an ordered list of flags.
pub trait Flaggable {
    /// The flags in the order in which they were added.
    spec fn flag_list(&self) -> Seq<Flag>;

    /// Appends `flag`; nothing else changes.
    fn add_flag(&mut self, flag: Flag)
        ensures
            final(self).flag_list() == old(self).flag_list().push(flag),
    ;

    /// Whether `flag` is among the flags.
    fn has_flag(&self, flag: Flag) -> (r: bool)
        ensures
            r == self.flag_list().contains(flag),
    ;

    /// Whether there is any flag at all.
    fn has_flags(&self) -> (r: bool)
        ensures
            r == (self.flag_list().len() > 0),
    ;

    /// Whether a visibility flag is among the flags.
    fn has_visiblity_flag(&self) -> (r: bool)
        ensures
            r == any_visibility(self.flag_list()),
    ;
}

/// Whether `flag` occurs in `flags`.
pub fn contains_flag(flags: &Vec<Flag>, flag: Flag) -> (r: bool)
    ensures
        r == flags@.contains(flag),
{
    let mut i: usize = 0;
    while i < flags.len()
        invariant
            i <= flags.len(),
            forall|j: int| 0 <= j < i ==> flags@[j] != flag,
        decreases flags.len() - i,
    {
        if flags[i] == flag {
            return true;
        }
        i += 1;
    }
    false
}

/// Whether a visibility flag occurs in `flags`.
pub fn contains_visibility_flag(flags: &Vec<Flag>) -> (r: bool)
    ensures
        r == any_visibility(flags@),
{
    let mut i: usize = 0;
    while i < flags.len()
        invariant
            i <= flags.len(),
            forall|j: int| 0 <= j < i ==> !(#[trigger] flags@[j]).visibility(),
        decreases flags.len() - i,
    {
        if flags[i].is_visibility_flag() {
            return true;
        }
        i += 1;
    }
    false
}

/// A copy of a list of flags.
pub fn clone_flags(v: &Vec<Flag>) -> (r: Vec<Flag>)
    ensures
        r@ == v@,
{
    let mut r: Vec<Flag> = Vec::new();
    let mut i: usize = 0;
    while i < v.len()
        invariant
            i <= v.len(),
            r@ == v@.subrange(0, i as int),
        decreases v.len() - i,
    {
        r.push(v[i]);
        assert(r@ =~= v@.subrange(0, i + 1));
        i += 1;
    }
    assert(v@.subrange(0, v.len() as int) =~= v@);
    r
}

} // verus!
