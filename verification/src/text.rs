//! Helpers for the text of tokens.

use vstd::prelude::*;
use vstd::string::*;

verus! {

/// The values of a sequence of strings.
pub open spec fn texts(v: Seq<String>) -> Seq<Seq<char>> {
    v.map_values(|s: String| s@)
}

/// The value of an optional string.
pub open spec fn optional_text(o: Option<String>) -> Option<Seq<char>> {
    match o {
        Some(s) => Some(s@),
        None => None,
    }
}

/// `s` without its first character; an empty text stays empty.
pub open spec fn without_first(s: Seq<char>) -> Seq<char> {
    if s.len() > 0 {
        s.subrange(1, s.len() as int)
    } else {
        s
    }
}

/// `s` without its first and its last character, as far as it has them.
pub open spec fn unquoted(s: Seq<char>) -> Seq<char> {
    if s.len() >= 2 {
        s.subrange(1, s.len() - 1)
    } else {
        Seq::empty()
    }
}

/// Drops the first character of `s`: the sigil of a variable.
pub fn strip_first(s: &str) -> (r: String)
    ensures
        r@ == without_first(s@),
{
    let n = s.unicode_len();
    if n > 0 {
        s.substring_char(1, n).to_owned()
    } else {
        String::new()
    }
}

/// Drops the first and the last character of `s`: the quotes of a string literal.
pub fn strip_quotes(s: &str) -> (r: String)
    ensures
        r@ == unquoted(s@),
{
    let n = s.unicode_len();
    if n >= 2 {
        s.substring_char(1, n - 1).to_owned()
    } else {
        String::new()
    }
}

/// Whether `s` begins with a question mark.
pub fn starts_with_question_mark(s: &str) -> (r: bool)
    ensures
        r == (s@.len() > 0 && s@[0] == '?'),
{
    s.unicode_len() > 0 && s.get_char(0) == '?'
}

/// Appends a name to a list.
pub fn push_text(list: &mut Vec<String>, s: String)
    ensures
        texts(final(list)@) == texts(old(list)@).push(s@),
{
    list.push(s);
    assert(texts(list@) =~= texts(old(list)@).push(s@));
}

/// A copy of an optional string.
pub fn clone_optional_text(o: &Option<String>) -> (r: Option<String>)
    ensures
        optional_text(r) == optional_text(*o),
{
    match o {
        Some(s) => Some(s.clone()),
        None => None,
    }
}

/// A copy of a list of strings.
pub fn clone_texts(v: &Vec<String>) -> (r: Vec<String>)
    ensures
        texts(r@) == texts(v@),
{
    let mut r: Vec<String> = Vec::new();
    let mut i: usize = 0;
    while i < v.len()
        invariant
            i <= v.len(),
            texts(r@) == texts(v@.subrange(0, i as int)),
        decreases v.len() - i,
    {
        let ghost before = r@;
        let s = v[i].clone();
        r.push(s);
        assert(texts(r@) =~= texts(before).push(s@));
        assert(texts(v@.subrange(0, i + 1)) =~= texts(v@.subrange(0, i as int)).push(v@[i as int]@));
        i += 1;
    }
    assert(v@.subrange(0, v.len() as int) =~= v@);
    r
}

} // verus!
