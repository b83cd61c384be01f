use vstd::prelude::*;

verus! {

/// First symbol of the generic-parameter alphabet: aliases are handed out in
/// alphabetical order starting here.
pub const TYPE_PARAMETERS_START: char = 'P';

/// The fixed alphabet that generic-parameter aliases are drawn from, in
/// hand-out order.
pub open spec fn alias_alphabet() -> Seq<char> {
    seq!['P', 'Q', 'R', 'S', 'T', 'U', 'V', 'W', 'X', 'Y', 'Z']
}

/// The fixed alphabet that scope (lifetime) tags are drawn from, in hand-out
/// order.
pub open spec fn lifetime_alphabet() -> Seq<char> {
    seq!['a', 'b', 'c', 'd', 'e', 'f', 'g']
}

/// Number of generic-parameter aliases available to one registry.
pub open spec fn alias_count() -> nat {
    alias_alphabet().len()
}

/// Number of scope tags available to one registry.
pub open spec fn lifetime_count() -> nat {
    lifetime_alphabet().len()
}

} // verus!
