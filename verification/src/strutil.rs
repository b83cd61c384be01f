//! Small executable helpers over strings, with exact contracts over their
//! `Seq<char>` views.

use vstd::prelude::*;

verus! {

/// True exactly when the two slices hold the same characters.
pub fn str_eq(a: &str, b: &str) -> (r: bool)
    ensures
        r == (a@ == b@),
{
    let sa: String = a.to_owned();
    let sb: String = b.to_owned();
    sa == sb
}

/// True exactly when the owned string holds the same characters as the slice.
pub fn string_eq_str(a: &String, b: &str) -> (r: bool)
    ensures
        r == (a@ == b@),
{
    let sb: String = b.to_owned();
    *a == sb
}

/// Relies on `char`'s `ToString` implementation: std documents that the
/// result is a `String` holding exactly this one character.
#[verifier::external_body]
pub fn char_to_string(c: char) -> (r: String)
    ensures
        r@ == seq![c],
{
    c.to_string()
}

} // verus!
