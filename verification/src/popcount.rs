//! Population count: the number of set bits of a 32-bit word, computed by two
//! different algorithms that share one specification.

use crate::bitmath::{lemma_and1_is_mod2, lemma_shr1_is_div2};
use vstd::arithmetic::power2::{lemma2_to64, pow2};
use vstd::prelude::*;

verus! {

/// The number of ones in the binary representation of `n`.
pub open spec fn ones_count(n: u32) -> nat
    decreases n,
{
    if n == 0 {
        0
    } else {
        (n % 2 + ones_count((n / 2) as u32)) as nat
    }
}

/// A word below the `k`-th power of two has at most `k` set bits.
proof fn lemma_ones_count_le(n: u32, k: nat)
    requires
        n < pow2(k),
    ensures
        ones_count(n) <= k,
    decreases n,
{
    if n != 0 {
        if k == 0 {
            assert(pow2(0) == 1) by {
                lemma2_to64();
            }
        } else {
            assert(pow2(k) == 2 * pow2((k - 1) as nat)) by {
                vstd::arithmetic::power2::lemma_pow2_unfold(k);
            }
            lemma_ones_count_le((n / 2) as u32, (k - 1) as nat);
        }
    }
}

/// No 32-bit word has more than 32 set bits.
proof fn lemma_ones_count_le_32(n: u32)
    ensures
        ones_count(n) <= 32,
{
    assert(pow2(32) == 0x1_0000_0000) by {
        lemma2_to64();
    }
    lemma_ones_count_le(n, 32);
}

/// A nonzero word has at least one set bit.
proof fn lemma_ones_count_pos(n: u32)
    requires
        n != 0,
    ensures
        ones_count(n) >= 1,
    decreases n,
{
    if n % 2 == 0 {
        lemma_ones_count_pos((n / 2) as u32)
    }
}

/// Clearing the lowest set bit of a nonzero word removes exactly one set bit.
proof fn lemma_clear_lowest_bit(n: u32)
    requires
        n != 0,
    ensures
        ones_count(n & (n - 1) as u32) == ones_count(n) - 1,
    decreases n,
{
    lemma_ones_count_pos(n);
    if n % 2 == 1 {
        assert(n & (n - 1) as u32 == (n - 1) as u32) by (bit_vector)
            requires
                n % 2 == 1,
        ;
        assert((n - 1) as u32 % 2 == 0 && (n - 1) as u32 / 2 == n / 2);
    } else {
        let m = (n / 2) as u32;
        assert(n & (n - 1) as u32 == 2 * ((n / 2) & ((n / 2) - 1) as u32)) by (bit_vector)
            requires
                n % 2 == 0 && n != 0,
        ;
        lemma_clear_lowest_bit(m);
        assert(ones_count(n & (n - 1) as u32) == ones_count((m & (m - 1) as u32)));
    }
}

/// Returns the count of ones in the binary representation of `number`,
/// scanning from the least significant bit up to the highest set bit.
pub fn binary_ones_count(number: u32) -> (r: u32)
    ensures
        r == ones_count(number),
{
    let mut count: u32 = 0;
    let mut cur = number;
    loop
        invariant_except_break
            count + ones_count(cur) == ones_count(number),
            count <= 32,
        ensures
            count == ones_count(number),
        decreases cur,
    {
        proof {
            lemma_and1_is_mod2(cur);
            lemma_shr1_is_div2(cur);
            lemma_ones_count_le_32(number);
        }
        count += cur & 1;
        let shifted = cur >> 1;
        if shifted == 0 {
            proof {
                assert(ones_count(0) == 0);
                assert(ones_count(1) == 1);
            }
            break;
        }
        cur = shifted;
    }
    count
}

/// Returns the count of ones in the binary representation of `number` by
/// repeatedly clearing the lowest set bit (the subtraction method).
pub fn binary_ones_count_sub_method(number: u32) -> (r: u32)
    ensures
        r == ones_count(number),
{
    match number {
        0 => 0,
        number => {
            let mut cur = number;
            let mut count: u32 = 0;
            loop
                invariant_except_break
                    cur != 0,
                    count + ones_count(cur) == ones_count(number),
                    count <= 32,
                ensures
                    count == ones_count(number),
                decreases cur,
            {
                proof {
                    lemma_clear_lowest_bit(cur);
                    lemma_ones_count_le_32(number);
                    assert((cur & (cur - 1) as u32) < cur) by (bit_vector)
                        requires
                            cur != 0,
                    ;
                }
                cur &= cur - 1;
                count += 1;
                if cur == 0 {
                    break;
                }
            }
            count
        },
    }
}

} // verus!
