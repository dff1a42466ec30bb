//! Small verified helpers over strings: collecting a string's characters and
//! comparing two strings, both specified against the character view.

use vstd::prelude::*;
use vstd::std_specs::iter::IteratorSpec;

verus! {

broadcast use vstd::string::axiom_spec_iter;

/// Collects the characters of a string slice into a vector.
pub fn chars_of(s: &str) -> (r: Vec<char>)
    ensures
        r@ == s@,
{
    let mut r: Vec<char> = Vec::new();
    for c in it: s.chars()
        invariant
            it.seq() == s@,
            r@.len() == it.index(),
            forall|i: int| 0 <= i < r@.len() ==> r@[i] == it.seq()[i],
    {
        r.push(c);
    }
    proof {
        assert(r@ =~= s@);
    }
    r
}

/// Compares two string slices character by character.
pub fn str_eq(a: &str, b: &str) -> (r: bool)
    ensures
        r == (a@ == b@),
{
    let av = chars_of(a);
    let bv = chars_of(b);
    if av.len() != bv.len() {
        return false;
    }
    let n = av.len();
    for i in 0..n
        invariant
            av@ == a@,
            bv@ == b@,
            n == av@.len(),
            av@.len() == bv@.len(),
            forall|j: int| 0 <= j < i ==> av@[j] == bv@[j],
    {
        if av[i] != bv[i] {
            return false;
        }
    }
    proof {
        assert(a@ =~= b@);
    }
    true
}

} // verus!
