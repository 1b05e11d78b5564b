//! Shared bit-level spec functions and small arithmetic lemmas.

use vstd::arithmetic::power2::{lemma2_to64, pow2};
use vstd::bits::{lemma_u32_shl_is_mul, lemma_u32_shr_is_div};
use vstd::prelude::*;

verus! {

/// The bit of `n` at position `i` (0 = least significant), as a boolean.
pub open spec fn bit_get(n: u32, i: u32) -> bool {
    (n >> i) & 1 == 1
}

/// A right shift by one halves a 32-bit word.
pub proof fn lemma_shr1_is_div2(x: u32)
    ensures
        x >> 1u32 == x / 2,
{
    lemma_u32_shr_is_div(x, 1);
    lemma2_to64();
}

/// Masking a 32-bit word with 1 keeps its remainder modulo 2.
pub proof fn lemma_and1_is_mod2(x: u32)
    ensures
        x & 1 == x % 2,
{
    assert(x & 1 == x % 2) by (bit_vector);
}

/// Shifting 1 left by `i` yields the `i`-th power of two.
pub proof fn lemma_shl1_is_pow2(i: u32)
    requires
        i < 32,
    ensures
        1u32 << i == pow2(i as nat),
{
    vstd::bits::lemma_u32_pow2_no_overflow(i as nat);
    lemma_u32_shl_is_mul(1, i);
}

} // verus!
