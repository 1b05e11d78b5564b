//! Raising two to a power within a 32-bit word.

use crate::bitmath::lemma_shl1_is_pow2;
use vstd::arithmetic::power2::pow2;
use vstd::prelude::*;

verus! {

/// Signal that a requested value does not fit the word width. Meant as the
/// `E` parameter of the `Err` variant inside a `Result`.
#[derive(PartialEq, Eq, Structural, Debug)]
pub struct Overflow;

/// Returns two raised to `power`, or `Err(Overflow)` if the result would not
/// fit in a 32-bit word (that is, whenever `power >= 32`).
pub fn power_of_two(power: u32) -> (r: Result<u32, Overflow>)
    ensures
        power < 32 ==> r == Ok::<u32, Overflow>(pow2(power as nat) as u32),
        power >= 32 ==> r == Err::<u32, Overflow>(Overflow),
{
    if power < u32::BITS {
        proof {
            lemma_shl1_is_pow2(power);
        }
        Ok(1 << power)
    } else {
        Err(Overflow)
    }
}

} // verus!
