//! Small shared helpers.

use vstd::prelude::*;

use vstd::std_specs::cmp::PartialEqSpec;

verus! {

/// Compares two vectors element by element.
#[verifier::loop_isolation(false)]
pub fn cmp_vec<T: PartialEq + PartialEqSpec>(vec: &Vec<T>, vec2: &Vec<T>) -> (r: bool)
    ensures
        T::obeys_eq_spec() ==> r == (vec@.len() == vec2@.len() && (forall|i: int|
            0 <= i < vec@.len() ==> vec@[i].eq_spec(&vec2@[i]))),
{
    if vec.len() != vec2.len() {
        return false;
    }
    let mut i: usize = 0;
    while i < vec.len()
        invariant
            i <= vec@.len() == vec2@.len(),
            T::obeys_eq_spec() ==> (forall|j: int| 0 <= j < i ==> vec@[j].eq_spec(&vec2@[j])),
        decreases vec@.len() - i,
    {
        if !(vec[i].eq(&vec2[i])) {
            return false;
        }
        i = i + 1;
    }
    true
}

} // verus!
