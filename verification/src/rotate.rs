//! Circular shifts of an 8-bit word: bits shifted past one end re-enter at
//! the other.

use vstd::prelude::*;

verus! {

/// `byte` rotated left by `count` positions. The effective rotation is
/// `count % 8`; rotating by an effective 0 leaves the word unchanged.
pub open spec fn rotl8_spec(byte: u8, count: u32) -> u8 {
    let c = (count % 8) as u8;
    if byte == 0 {
        0
    } else if c == 0 {
        byte
    } else {
        (byte << c) | (byte >> (8 - c) as u8)
    }
}

/// `byte` rotated right by `count` positions. The effective rotation is
/// `count % 8`; rotating by an effective 0 leaves the word unchanged.
pub open spec fn rotr8_spec(byte: u8, count: u32) -> u8 {
    let c = (count % 8) as u8;
    if byte == 0 {
        0
    } else if c == 0 {
        byte
    } else {
        (byte >> c) | (byte << (8 - c) as u8)
    }
}

/// Rotating left and rotating right by the same count are mutual inverses.
pub proof fn lemma_circular_shifts_inverse(byte: u8, count: u32)
    by (bit_vector)
    ensures
        rotr8_spec(rotl8_spec(byte, count), count) == byte,
        rotl8_spec(rotr8_spec(byte, count), count) == byte,
{
}

/// Returns `byte` circularly shifted left by `count` positions.
pub fn circular_shl(byte: u8, count: u32) -> (r: u8)
    ensures
        r == rotl8_spec(byte, count),
{
    match byte {
        0 => 0,
        byte => {
            let safe_count = count % u8::BITS;
            match safe_count {
                0 => byte,
                count => (byte << count as u8) | (byte >> (u8::BITS - count) as u8),
            }
        },
    }
}

/// Returns `byte` circularly shifted right by `count` positions.
pub fn circular_shr(byte: u8, count: u32) -> (r: u8)
    ensures
        r == rotr8_spec(byte, count),
{
    match byte {
        0 => 0,
        byte => {
            let safe_count = count % u8::BITS;
            match safe_count {
                0 => byte,
                count => (byte >> count as u8) | (byte << (u8::BITS - count) as u8),
            }
        },
    }
}

} // verus!
