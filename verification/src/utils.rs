//! In-place shuffling, driven by an injected random source.

use vstd::prelude::*;
use crate::rng::Rng;

verus! {

/// How many positions of `s` hold the value `x`.
pub open spec fn count_of<T>(s: Seq<T>, x: T) -> nat
    decreases s.len(),
{
    if s.len() == 0 {
        0
    } else {
        count_of(s.drop_last(), x) + (if s.last() == x { 1nat } else { 0nat })
    }
}

/// Overwriting one position changes the count of a value by the two
/// indicator terms of the old and the new occupant.
pub proof fn lemma_count_update<T>(s: Seq<T>, i: int, v: T, x: T)
    requires
        0 <= i < s.len(),
    ensures
        count_of(s.update(i, v), x) as int == count_of(s, x) as int
            - (if s[i] == x { 1int } else { 0int })
            + (if v == x { 1int } else { 0int }),
    decreases s.len(),
{
    let su = s.update(i, v);
    if i == s.len() - 1 {
        assert(su.drop_last() =~= s.drop_last());
    } else {
        assert(su.drop_last() =~= s.drop_last().update(i, v));
        lemma_count_update(s.drop_last(), i, v, x);
    }
}

/// Permute the elements of `arr` in place (a Fisher-Yates pass), using
/// `rng` for the draws. Every value keeps its multiplicity.
pub fn shuffle<T: Copy>(arr: &mut Vec<T>, rng: &mut Rng)
    ensures
        final(arr)@.len() == old(arr)@.len(),
        forall|x: T| count_of(final(arr)@, x) == count_of(old(arr)@, x),
{
    let mut current_index: usize = arr.len();

    while current_index != 0
        invariant
            current_index <= arr@.len(),
            arr@.len() == old(arr)@.len(),
            forall|x: T| count_of(arr@, x) == count_of(old(arr)@, x),
        decreases current_index,
    {
        let random_index = rng.next_below(current_index as u64) as usize;
        current_index = current_index - 1;

        let ghost s0 = arr@;
        let a = arr[current_index];
        let b = arr[random_index];
        arr.set(current_index, b);
        let ghost s1 = arr@;
        arr.set(random_index, a);

        proof {
            assert forall|x: T| count_of(arr@, x) == count_of(s0, x) by {
                lemma_count_update(s0, current_index as int, b, x);
                lemma_count_update(s1, random_index as int, a, x);
                assert(s1[random_index as int] == b);
            }
        }
    }
}

} // verus!
