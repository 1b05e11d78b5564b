//! Locating the highest-order bit: the index of the most significant set bit
//! of a 32-bit word, computed by three different algorithms that share one
//! specification.

use crate::bitmath::{lemma_shl1_is_pow2, lemma_shr1_is_div2};
use vstd::arithmetic::power2::{
    lemma2_to64, lemma_pow2_strictly_increases, lemma_pow2_unfold, pow2,
};
use vstd::prelude::*;

verus! {

/// The index of the most significant set bit of `n`, taking 0 for the word 0.
pub open spec fn hob_index(n: u32) -> nat
    decreases n,
{
    if n < 2 {
        0
    } else {
        (1 + hob_index((n / 2) as u32)) as nat
    }
}

/// A nonzero word lies between the power of two at its highest-order bit and
/// the next power of two, and its highest-order bit is below the word width.
pub proof fn lemma_hob_bounds(n: u32)
    requires
        n != 0,
    ensures
        pow2(hob_index(n)) <= n < pow2(hob_index(n) + 1),
        hob_index(n) < 32,
    decreases n,
{
    lemma2_to64();
    if n >= 2 {
        let m = (n / 2) as u32;
        lemma_hob_bounds(m);
        lemma_pow2_unfold(hob_index(n));
        lemma_pow2_unfold(hob_index(n) + 1);
        if hob_index(n) >= 32 {
            lemma_pow2_strictly_increases(32, hob_index(n));
        }
    }
}

/// The highest-order bit index is the unique `k` with `pow2(k) <= n < pow2(k + 1)`.
pub proof fn lemma_hob_unique(n: u32, k: nat)
    requires
        pow2(k) <= n < pow2(k + 1),
    ensures
        hob_index(n) == k,
{
    vstd::arithmetic::power2::lemma_pow2_pos(k);
    lemma_hob_bounds(n);
    let h = hob_index(n);
    if h < k {
        lemma_pow2_le(h + 1, k);
    }
    if k < h {
        lemma_pow2_le(k + 1, h);
    }
}

/// Powers of two are monotone in the exponent.
proof fn lemma_pow2_le(e1: nat, e2: nat)
    requires
        e1 <= e2,
    ensures
        pow2(e1) <= pow2(e2),
{
    if e1 < e2 {
        lemma_pow2_strictly_increases(e1, e2);
    }
}

/// Returns true if `number` cannot have a highest-order bit.
fn no_hob(number: u32) -> (r: bool)
    ensures
        r == (number == 0),
{
    number == 0
}

/// Returns the index of the highest-order bit of `number`, or `None` for 0.
/// Scans upward from the least significant bit by repeated right shifts.
pub fn hob(number: u32) -> (r: Option<u32>)
    ensures
        number == 0 ==> r == None::<u32>,
        number != 0 ==> r == Some(hob_index(number) as u32),
{
    if no_hob(number) {
        return None;
    }
    let mut index: u32 = 0;
    let mut cur = number;
    loop
        invariant_except_break
            number != 0,
            cur != 0,
            hob_index(number) == index + hob_index(cur),
            index <= 31,
        ensures
            hob_index(number) == index - 1,
            1 <= index <= 32,
        decreases cur,
    {
        proof {
            lemma_shr1_is_div2(cur);
            lemma_hob_bounds(cur);
            lemma_hob_bounds(number);
        }
        index += 1;
        let shifted = cur >> 1;
        if shifted == 0 {
            break;
        }
        cur = shifted;
    }
    Some(index - 1)
}

/// Returns the index of the highest-order bit of `number`, or `None` for 0.
/// Halves a threshold from the top power of two until `number` reaches it.
pub fn hob_thr(number: u32) -> (r: Option<u32>)
    ensures
        number == 0 ==> r == None::<u32>,
        number != 0 ==> r == Some(hob_index(number) as u32),
{
    if no_hob(number) {
        return None;
    }
    let mut index: u32 = u32::BITS - 1;
    let mut threshold: u32 = 1 << u32::BITS - 1;
    proof {
        lemma_shl1_is_pow2(31);
        lemma2_to64();
    }
    while number < threshold
        invariant
            number != 0,
            index <= 31,
            threshold == pow2(index as nat),
            number < pow2(index as nat + 1),
        decreases index,
    {
        proof {
            lemma2_to64();
            if index == 0 {
                assert(false);
            }
            lemma_shr1_is_div2(threshold);
            lemma_pow2_unfold(index as nat);
        }
        threshold >>= 1;
        index -= 1;
    }
    proof {
        lemma_hob_unique(number, index as nat);
    }
    Some(index)
}

/// Returns the index of the highest-order bit of `number`, or `None` for 0.
/// Scans candidate positions from the top down, comparing against each power
/// of two.
pub fn hob_comp_pot(number: u32) -> (r: Option<u32>)
    ensures
        number == 0 ==> r == None::<u32>,
        number != 0 ==> r == Some(hob_index(number) as u32),
{
    if no_hob(number) {
        return None;
    }
    let mut i: u32 = u32::BITS;
    proof {
        lemma2_to64();
    }
    while i > 0
        invariant
            number != 0,
            i <= 32,
            number < pow2(i as nat),
        decreases i,
    {
        i -= 1;
        let pow_of_two = 1u32 << i;
        proof {
            lemma_shl1_is_pow2(i);
            lemma_pow2_unfold(i as nat + 1);
        }
        if number & pow_of_two == pow_of_two {
            proof {
                assert(number >= (1u32 << i)) by (bit_vector)
                    requires
                        i < 32 && number & (1u32 << i) == (1u32 << i),
                ;
                lemma_hob_unique(number, i as nat);
            }
            return Some(i);
        }
        proof {
            assert(number < (1u32 << i)) by (bit_vector)
                requires
                    i < 32 && number & (1u32 << i) != (1u32 << i) && number < 2 * (1u32 << i),
            ;
        }
    }
    proof {
        assert(false);
    }
    None
}

} // verus!
