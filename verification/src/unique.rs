//! Finding the lone unpaired element of a slice by a cumulative XOR fold.

use vstd::prelude::*;

verus! {

/// The cumulative XOR of the elements of `s`, left to right.
pub open spec fn xor_fold(s: Seq<u32>) -> u32
    decreases s.len(),
{
    if s.len() == 0 {
        0
    } else {
        xor_fold(s.drop_last()) ^ s.last()
    }
}

/// Returns the cumulative XOR of all elements, or `None` for an empty slice.
///
/// When every element but one occurs an even number of times, paired
/// occurrences cancel (XOR is associative, commutative and self-canceling)
/// and the fold is the lone unpaired element. The function does not check
/// that precondition; on other inputs it still returns the fold.
pub fn find_unique(vals: &[u32]) -> (r: Option<u32>)
    ensures
        vals@.len() == 0 ==> r == None::<u32>,
        vals@.len() > 0 ==> r == Some(xor_fold(vals@)),
{
    let mut acc: Option<u32> = None;
    let mut i: usize = 0;
    while i < vals.len()
        invariant
            i <= vals@.len(),
            acc == if i == 0 {
                None::<u32>
            } else {
                Some(xor_fold(vals@.take(i as int)))
            },
        decreases vals@.len() - i,
    {
        let val = vals[i];
        acc = match acc {
            None => Some(val),
            Some(acc) => Some(acc ^ val),
        };
        proof {
            let taken = vals@.take(i + 1);
            assert(taken.drop_last() =~= vals@.take(i as int));
            assert(taken.last() == vals@[i as int]);
            if i == 0 {
                assert(xor_fold(taken.drop_last()) == 0);
                assert(0u32 ^ val == val) by (bit_vector);
            }
        }
        i += 1;
    }
    proof {
        if vals@.len() > 0 {
            assert(vals@.take(vals@.len() as int) =~= vals@);
        }
    }
    acc
}

} // verus!
