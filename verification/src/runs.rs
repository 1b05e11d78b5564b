//! Counting the alignments at which a run of consecutive one-bits of a given
//! length appears inside a 32-bit word.

use vstd::prelude::*;

verus! {

/// The word whose `len` lowest bits are all 1 and whose other bits are 0.
pub open spec fn ones_mask(len: u32) -> u32
    recommends
        1 <= len <= 32,
{
    if len >= 32 {
        0xffff_ffffu32
    } else {
        ((1u32 << len) - 1) as u32
    }
}

/// Whether the `len` contiguous bits of `n` starting at position `p` are all
/// set.
pub open spec fn run_at(n: u32, len: u32, p: u32) -> bool
    recommends
        1 <= len <= 32,
        p + len <= 32,
{
    n & (ones_mask(len) << p) == ones_mask(len) << p
}

/// The number of positions below `p` at which a run of `len` ones appears.
pub open spec fn entries_count(n: u32, len: u32, p: int) -> nat
    decreases p,
{
    if p <= 0 {
        0
    } else {
        entries_count(n, len, p - 1) + (if run_at(n, len, (p - 1) as u32) {
            1nat
        } else {
            0nat
        })
    }
}

/// No more than `p` runs fit below position `p`.
proof fn lemma_entries_count_le(n: u32, len: u32, p: int)
    requires
        p >= 0,
    ensures
        entries_count(n, len, p) <= p,
    decreases p,
{
    if p > 0 {
        lemma_entries_count_le(n, len, p - 1);
    }
}

/// Returns the word that represents a sequence of `consecutive_ones_count`
/// consecutive ones in its lowest bits, or `None` if that count is 0 or
/// exceeds the word width.
pub fn consecutive_ones_number(consecutive_ones_count: u32) -> (r: Option<u32>)
    ensures
        1 <= consecutive_ones_count <= 32 ==> r == Some(ones_mask(consecutive_ones_count)),
        !(1 <= consecutive_ones_count <= 32) ==> r == None::<u32>,
{
    if consecutive_ones_count == 0 || consecutive_ones_count > u32::BITS {
        None
    } else if consecutive_ones_count == u32::BITS {
        Some(u32::MAX)
    } else {
        proof {
            assert(1u32 << consecutive_ones_count >= 1) by (bit_vector)
                requires
                    consecutive_ones_count < 32,
            ;
        }
        Some((1 << consecutive_ones_count) - 1)
    }
}

/// Returns how many alignments of a run of `consecutive_ones_count` ones
/// match inside `number`, or `None` if that run length is 0 or exceeds the
/// word width. A run length of exactly 32 matches only the all-ones word.
pub fn consecutive_ones_entries_count(number: u32, consecutive_ones_count: u32) -> (r: Option<u32>)
    ensures
        1 <= consecutive_ones_count <= 32 ==> r == Some(
            entries_count(number, consecutive_ones_count, 33 - consecutive_ones_count) as u32,
        ),
        !(1 <= consecutive_ones_count <= 32) ==> r == None::<u32>,
{
    let len = consecutive_ones_count;
    let mut pattern = match consecutive_ones_number(len) {
        Some(pattern) => pattern,
        None => {
            return None;
        },
    };
    let mut matches: u32 = 0;
    let ghost mut p: u32 = 0;
    proof {
        assert(pattern << 0u32 == pattern) by (bit_vector);
    }
    loop
        invariant_except_break
            1 <= len <= 32,
            p + len <= 32,
            pattern == ones_mask(len) << p,
            matches == entries_count(number, len, p as int),
        ensures
            matches == entries_count(number, len, 33 - len),
        decreases 32 - len - p,
    {
        proof {
            lemma_entries_count_le(number, len, p as int);
            assert(pattern & number == number & pattern) by (bit_vector);
        }
        if pattern & number == pattern {
            matches += 1;
        }
        proof {
            assert(matches == entries_count(number, len, p + 1));
        }
        if pattern & 0x8000_0000u32 == 0x8000_0000u32 {
            proof {
                assert((ones_mask(len) << p) & 0x8000_0000u32 == 0x8000_0000u32 ==> p == 32 - len)
                    by (bit_vector)
                    requires
                        1 <= len <= 32 && p + len <= 32,
                ;
            }
            break;
        }
        proof {
            assert(p == 32 - len ==> (ones_mask(len) << p) & 0x8000_0000u32 == 0x8000_0000u32)
                by (bit_vector)
                requires
                    1 <= len <= 32 && p + len <= 32,
            ;
            assert(p < 32 - len);
            assert((ones_mask(len) << p) << 1u32 == ones_mask(len) << (p + 1) as u32)
                by (bit_vector)
                requires
                    1 <= len <= 32 && p + len < 32,
            ;
        }
        pattern <<= 1;
        proof {
            p = (p + 1) as u32;
        }
    }
    Some(matches)
}

} // verus!
