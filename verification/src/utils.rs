//! Searching a slice for the first occurrence of a contiguous subsequence.

use vstd::prelude::*;
use vstd::std_specs::cmp::PartialEqSpec;

verus! {

/// Whether `sequence` stands in `vector` beginning at position `i`, element
/// for element under the type's equality.
pub open spec fn matches_at<T: PartialEq>(vector: Seq<T>, sequence: Seq<T>, i: int) -> bool {
    forall|j: int| 0 <= j < sequence.len() ==> (#[trigger] vector[i + j]).eq_spec(&sequence[j])
}

/// The position of the first occurrence of `sequence` in `vector`, or `None`
/// where there is none. An empty sequence occurs at position zero.
pub fn find_sequence<T: PartialEq>(vector: &[T], sequence: &[T]) -> (r: Option<usize>)
    requires
        T::obeys_eq_spec(),
    ensures
        r matches Some(i) ==> i + sequence@.len() <= vector@.len()
            && matches_at(vector@, sequence@, i as int)
            && forall|k: int| 0 <= k < i ==> !matches_at(vector@, sequence@, k),
        r is None ==> forall|k: int| 0 <= k && k + sequence@.len() <= vector@.len()
            ==> !matches_at(vector@, sequence@, k),
{
    if sequence.len() > vector.len() {
        return None;
    }
    if sequence.len() == 0 {
        return Some(0);
    }
    let vlen = vector.len();
    let slen = sequence.len();
    let bound = vlen - slen;
    let mut i: usize = 0;
    while i <= bound
        invariant
            T::obeys_eq_spec(),
            vlen == vector@.len() <= usize::MAX,
            slen == sequence@.len(),
            1 <= slen <= vlen,
            bound == vlen - slen,
            i <= bound + 1,
            forall|k: int| 0 <= k < i ==> !matches_at(vector@, sequence@, k),
        decreases bound + 1 - i,
    {
        let mut j: usize = 0;
        let mut is_match = true;
        while is_match && j < sequence.len()
            invariant
                T::obeys_eq_spec(),
                vlen == vector@.len() <= usize::MAX,
                slen == sequence@.len(),
                i + slen <= vlen,
                j <= sequence@.len(),
                is_match ==> forall|jj: int| 0 <= jj < j
                    ==> (#[trigger] vector@[i + jj]).eq_spec(&sequence@[jj]),
                !is_match ==> !matches_at(vector@, sequence@, i as int),
            decreases sequence@.len() - j + if is_match { 1int } else { 0int },
        {
            if vector[i + j] == sequence[j] {
                j = j + 1;
            } else {
                proof {
                    assert(!(vector@[i + j]).eq_spec(&sequence@[j as int]));
                }
                is_match = false;
            }
        }
        if is_match {
            return Some(i);
        }
        i = i + 1;
    }
    None
}

} // verus!
