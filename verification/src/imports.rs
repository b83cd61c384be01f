//! The set of external symbols a rendered signature requires.
//!
//! A symbol is added at most once; the collection is a set of names, and
//! the order in which names were added is not observable through its view.

use vstd::prelude::*;
use crate::strutil::string_eq_str;

verus! {

/// A set of import paths.
pub struct Imports {
    names: Vec<String>,
}

/// The set of texts a list of owned strings holds.
pub open spec fn name_set(v: Seq<String>) -> Set<Seq<char>> {
    Set::new(|s: Seq<char>| exists|i: int| 0 <= i < v.len() && (#[trigger] v[i])@ == s)
}

impl View for Imports {
    type V = Set<Seq<char>>;

    closed spec fn view(&self) -> Set<Seq<char>> {
        name_set(self.names@)
    }
}

impl Imports {
    /// An empty import set.
    pub fn new() -> (r: Imports)
        ensures
            r@ == Set::<Seq<char>>::empty(),
    {
        let r = Imports { names: Vec::new() };
        proof {
            assert(r@ =~= Set::<Seq<char>>::empty());
        }
        r
    }

    /// Whether this name is already collected.
    pub fn contains(&self, name: &str) -> (r: bool)
        ensures
            r == self@.contains(name@),
    {
        let mut i: usize = 0;
        while i < self.names.len()
            invariant
                0 <= i <= self.names@.len(),
                forall|k: int| 0 <= k < i ==> (#[trigger] self.names@[k])@ != name@,
            decreases self.names@.len() - i,
        {
            if string_eq_str(&self.names[i], name) {
                proof {
                    assert(self@.contains(name@));
                }
                return true;
            }
            i += 1;
        }
        proof {
            if self@.contains(name@) {
                let j = choose|j: int| 0 <= j < self.names@.len() && (#[trigger] self.names@[j])@
                    == name@;
                assert(false);
            }
        }
        false
    }

    /// Add one required symbol.
    pub fn add(&mut self, name: &str)
        ensures
            final(self)@ == old(self)@.insert(name@),
    {
        if !self.contains(name) {
            let ghost before = self.names@;
            self.names.push(name.to_owned());
            proof {
                assert forall|s: Seq<char>| self@.contains(s) implies old(
                    self,
                )@.insert(name@).contains(s) by {
                    let j = choose|j: int| 0 <= j < self.names@.len() && (
                    #[trigger] self.names@[j])@ == s;
                    if j < before.len() {
                        assert(before[j]@ == s);
                    }
                }
                assert forall|s: Seq<char>| old(self)@.insert(name@).contains(s) implies
                    self@.contains(s) by {
                    if s == name@ {
                        assert(self.names@[before.len() as int]@ == s);
                    } else {
                        let j = choose|j: int| 0 <= j < before.len() && (#[trigger] before[j])@
                            == s;
                        assert(self.names@[j]@ == s);
                    }
                }
                assert(self@ =~= old(self)@.insert(name@));
            }
        } else {
            proof {
                assert(self@ =~= old(self)@.insert(name@));
            }
        }
    }

    /// Add the concrete wrapped type behind a reference-like binding. The
    /// rendered type text stands as the required symbol.
    pub fn add_used_type(&mut self, type_str: &str)
        ensures
            final(self)@ == old(self)@.insert(type_str@),
    {
        self.add(type_str);
    }

    /// The collected names, one entry per symbol.
    pub fn names(&self) -> (r: &Vec<String>)
        ensures
            name_set(r@) == self@,
    {
        &self.names
    }
}

} // verus!
