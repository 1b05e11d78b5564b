//! Exchanging the bits at two positions of a 32-bit word, by two different
//! algorithms that share one specification.

use crate::bitmath::bit_get;
use vstd::prelude::*;

verus! {

/// `n` with the bits at `i` and `j` exchanged and every other bit unchanged.
/// When the two bits are equal the word is unchanged.
pub open spec fn swap_bits_spec(n: u32, i: u32, j: u32) -> u32 {
    let d = ((n >> i) ^ (n >> j)) & 1;
    n ^ (d << i) ^ (d << j)
}

/// The swap specification does not depend on the order of the two indices.
pub proof fn lemma_swap_bits_spec_comm(n: u32, i: u32, j: u32)
    by (bit_vector)
    ensures
        swap_bits_spec(n, i, j) == swap_bits_spec(n, j, i),
{
}

/// Swapping moves each of the two bits to the other position and leaves every
/// other bit alone.
pub proof fn lemma_swap_bits_spec_bits(n: u32, i: u32, j: u32)
    by (bit_vector)
    requires
        i < 32,
        j < 32,
    ensures
        bit_get(swap_bits_spec(n, i, j), i) == bit_get(n, j),
        bit_get(swap_bits_spec(n, i, j), j) == bit_get(n, i),
        forall|k: u32| k < 32 && k != i && k != j ==> #[trigger] bit_get(swap_bits_spec(n, i, j), k)
            == bit_get(n, k),
{
}

/// Swapping the same pair of indices twice restores the word.
pub proof fn lemma_swap_bits_spec_involution(n: u32, i: u32, j: u32)
    by (bit_vector)
    requires
        i < 32,
        j < 32,
    ensures
        swap_bits_spec(swap_bits_spec(n, i, j), i, j) == n,
{
}

/// Returns `number` with the bits at `index1` and `index2` exchanged, or
/// `None` if either index is out of range. Uses direct mask arithmetic.
pub fn swap_bits(number: u32, index1: u32, index2: u32) -> (r: Option<u32>)
    ensures
        index1 < 32 && index2 < 32 ==> r == Some(swap_bits_spec(number, index1, index2)),
        !(index1 < 32 && index2 < 32) ==> r == None::<u32>,
{
    if index1 >= u32::BITS || index2 >= u32::BITS {
        return None;
    }
    if index1 == index2 {
        proof {
            assert(swap_bits_spec(number, index1, index1) == number) by (bit_vector);
        }
        return Some(number);
    }
    let (min_index, max_index) = if index1 > index2 {
        (index2, index1)
    } else {
        (index1, index2)
    };
    let distance = max_index - min_index;
    let min_index_number = 1u32 << min_index;
    let max_index_number = 1u32 << max_index;
    let swapped = number & (number ^ min_index_number ^ max_index_number) | number >> distance
        & min_index_number | number << distance & max_index_number;
    proof {
        assert((number & (number ^ (1u32 << min_index) ^ (1u32 << max_index)) | number >> (max_index
            - min_index) as u32 & (1u32 << min_index) | number << (max_index - min_index) as u32 & (
        1u32 << max_index)) == swap_bits_spec(number, min_index, max_index)) by (bit_vector)
            requires
                min_index < max_index < 32,
        ;
        lemma_swap_bits_spec_comm(number, index1, index2);
    }
    Some(swapped)
}

/// Returns `number` with the bits at `index1` and `index2` exchanged, or
/// `None` if either index is out of range. Uses XOR-based toggling.
pub fn swap_bits_xor(number: u32, index1: u32, index2: u32) -> (r: Option<u32>)
    ensures
        index1 < 32 && index2 < 32 ==> r == Some(swap_bits_spec(number, index1, index2)),
        !(index1 < 32 && index2 < 32) ==> r == None::<u32>,
{
    if index1 >= u32::BITS || index2 >= u32::BITS {
        return None;
    }
    if index1 == index2 {
        proof {
            assert(swap_bits_spec(number, index1, index1) == number) by (bit_vector);
        }
        return Some(number);
    }
    let bit1 = (number >> index1) & 1;
    let bit2 = (number >> index2) & 1;
    let mut swapper = bit1 ^ bit2;
    swapper = swapper << index1 | swapper << index2;
    proof {
        let d = ((number >> index1) & 1) ^ ((number >> index2) & 1);
        assert((number ^ (d << index1 | d << index2)) == swap_bits_spec(number, index1, index2))
            by (bit_vector)
            requires
                index1 < 32 && index2 < 32 && index1 != index2 && d == ((number >> index1) & 1) ^ ((
                number >> index2) & 1),
        ;
    }
    Some(number ^ swapper)
}

} // verus!
