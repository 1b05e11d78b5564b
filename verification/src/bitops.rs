//! Single-bit manipulation on a 32-bit word: setting, clearing (by three
//! algorithms), inverting, and removing a bit with right-compaction.
//!
//! Every operation guards its bit index: an index at or past the word width
//! yields `None`.

use crate::bitmath::bit_get;
use vstd::prelude::*;

verus! {

/// `n` with the bit at `i` set to 1.
pub open spec fn set_bit_spec(n: u32, i: u32) -> u32 {
    n | (1u32 << i)
}

/// `n` with the bit at `i` set to 0.
pub open spec fn unset_bit_spec(n: u32, i: u32) -> u32 {
    n & !(1u32 << i)
}

/// `n` with the bit at `i` flipped.
pub open spec fn invert_bit_spec(n: u32, i: u32) -> u32 {
    n ^ (1u32 << i)
}

/// `n` with the bit at `i` removed: bits below `i` stay, bits above `i` move
/// down one position, and the vacated top bit becomes 0.
pub open spec fn remove_bit_spec(n: u32, i: u32) -> u32 {
    (n & ((1u32 << i) - 1) as u32) | (((n >> i) >> 1u32) << i)
}

/// Setting the bit at `i` makes that bit 1 and leaves every other bit alone.
pub proof fn lemma_set_bit_spec_bits(n: u32, i: u32)
    by (bit_vector)
    requires
        i < 32,
    ensures
        bit_get(set_bit_spec(n, i), i),
        forall|j: u32| j < 32 && j != i ==> #[trigger] bit_get(set_bit_spec(n, i), j) == bit_get(
            n,
            j,
        ),
{
}

/// Clearing the bit at `i` makes that bit 0 and leaves every other bit alone.
pub proof fn lemma_unset_bit_spec_bits(n: u32, i: u32)
    by (bit_vector)
    requires
        i < 32,
    ensures
        !bit_get(unset_bit_spec(n, i), i),
        forall|j: u32| j < 32 && j != i ==> #[trigger] bit_get(unset_bit_spec(n, i), j) == bit_get(
            n,
            j,
        ),
{
}

/// Inverting the bit at `i` flips that bit and leaves every other bit alone.
pub proof fn lemma_invert_bit_spec_bits(n: u32, i: u32)
    by (bit_vector)
    requires
        i < 32,
    ensures
        bit_get(invert_bit_spec(n, i), i) == !bit_get(n, i),
        forall|j: u32| j < 32 && j != i ==> #[trigger] bit_get(invert_bit_spec(n, i), j)
            == bit_get(n, j),
{
}

/// Removing the bit at `i` keeps the bits below `i`, moves each higher bit
/// down one position, and zeroes the top bit.
pub proof fn lemma_remove_bit_spec_bits(n: u32, i: u32)
    by (bit_vector)
    requires
        i < 32,
    ensures
        forall|j: u32| j < i ==> #[trigger] bit_get(remove_bit_spec(n, i), j) == bit_get(n, j),
        forall|j: u32| i <= j < 31 ==> #[trigger] bit_get(remove_bit_spec(n, i), j) == bit_get(
            n,
            (j + 1) as u32,
        ),
        !bit_get(remove_bit_spec(n, i), 31),
{
}

/// Clearing a bit right after setting it restores the word, provided the bit
/// was 0 to begin with.
pub proof fn lemma_unset_after_set(x: u32, index: u32)
    by (bit_vector)
    requires
        index < 32,
        !bit_get(x, index),
    ensures
        unset_bit_spec(set_bit_spec(x, index), index) == x,
{
}

/// Inverting the same bit twice restores the word.
pub proof fn lemma_invert_bit_self_inverse(x: u32, index: u32)
    by (bit_vector)
    requires
        index < 32,
    ensures
        invert_bit_spec(invert_bit_spec(x, index), index) == x,
{
}

/// Returns a copy of `number` with the bit at `index` set to 1, or `None` if
/// the index is out of range.
pub fn set_bit(number: u32, index: u32) -> (r: Option<u32>)
    ensures
        index < 32 ==> r == Some(set_bit_spec(number, index)),
        index >= 32 ==> r == None::<u32>,
{
    if index >= u32::BITS {
        return None;
    }
    Some(number | 1 << index)
}

/// Returns a copy of `number` with the bit at `index` set to 0, or `None` if
/// the index is out of range. Uses the subtraction method.
pub fn unset_bit(number: u32, index: u32) -> (r: Option<u32>)
    ensures
        index < 32 ==> r == Some(unset_bit_spec(number, index)),
        index >= 32 ==> r == None::<u32>,
{
    if index >= u32::BITS {
        return None;
    }
    proof {
        assert((number | 1u32 << index) >= (1u32 << index) && ((number | 1u32 << index) - (1u32
            << index)) == (number & !(1u32 << index))) by (bit_vector)
            requires
                index < 32,
        ;
    }
    Some((number | 1 << index) - (1 << index))
}

/// Returns a copy of `number` with the bit at `index` set to 0, or `None` if
/// the index is out of range. Uses the XOR method.
pub fn unset_bit_xor(number: u32, index: u32) -> (r: Option<u32>)
    ensures
        index < 32 ==> r == Some(unset_bit_spec(number, index)),
        index >= 32 ==> r == None::<u32>,
{
    if index >= u32::BITS {
        return None;
    }
    proof {
        assert((number & (number ^ 1u32 << index)) == (number & !(1u32 << index))) by (bit_vector);
    }
    Some(number & (number ^ 1 << index))
}

/// Returns a copy of `number` with the bit at `index` set to 0, or `None` if
/// the index is out of range. Uses the bitwise-NOT method.
pub fn unset_bit_bitwise_not(number: u32, index: u32) -> (r: Option<u32>)
    ensures
        index < 32 ==> r == Some(unset_bit_spec(number, index)),
        index >= 32 ==> r == None::<u32>,
{
    if index >= u32::BITS {
        return None;
    }
    Some(number & !(1 << index))
}

/// Returns a copy of `number` with the bit at `index` flipped, or `None` if
/// the index is out of range.
pub fn invert_bit(number: u32, index: u32) -> (r: Option<u32>)
    ensures
        index < 32 ==> r == Some(invert_bit_spec(number, index)),
        index >= 32 ==> r == None::<u32>,
{
    if index >= u32::BITS {
        return None;
    }
    Some(number ^ 1 << index)
}

/// Returns a copy of `number` with the bit at `index` removed, or `None` if
/// the index is out of range. Bits below the removed bit are left untouched;
/// bits above it are shifted right by one.
pub fn remove_bit(number: u32, index: u32) -> (r: Option<u32>)
    ensures
        index < 32 ==> r == Some(remove_bit_spec(number, index)),
        index >= 32 ==> r == None::<u32>,
{
    if index >= u32::BITS {
        return None;
    }
    let mut remover = number >> index >> 1 ^ number >> index;
    remover <<= index;
    proof {
        assert((number ^ ((((number >> index) >> 1u32) ^ (number >> index)) << index))
            == remove_bit_spec(number, index)) by (bit_vector)
            requires
                index < 32,
        ;
    }
    Some(number ^ remover)
}

} // verus!
