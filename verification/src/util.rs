//! Small shared executable helpers.

use vstd::prelude::*;

verus! {

/// A vector of `len` copies of `val`.
pub fn filled<T: Copy>(len: usize, val: T) -> (r: Vec<T>)
    ensures
        r@.len() == len,
        forall|i: int| 0 <= i < len ==> r@[i] == val,
{
    let mut r: Vec<T> = Vec::new();
    let mut i: usize = 0;
    while i < len
        invariant
            i <= len,
            r@.len() == i,
            forall|j: int| 0 <= j < i ==> r@[j] == val,
        decreases len - i,
    {
        r.push(val);
        i = i + 1;
    }
    r
}

} // verus!
