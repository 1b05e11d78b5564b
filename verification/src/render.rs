//! Rendering the minimal binary representation of a 32-bit word as ASCII
//! '0'/'1' characters, most significant bit first.

use crate::bitmath::{lemma_and1_is_mod2, lemma_shr1_is_div2};
use vstd::prelude::*;

verus! {

/// ASCII/UTF-8 code of the character '0'. The next code is '1'.
const ZERO_CHAR_NUM: u8 = 48;

/// The ASCII digits of `n` in base two, most significant first, with no
/// leading zeros except that 0 itself renders as the single digit "0".
pub open spec fn binary_digits(n: u32) -> Seq<u8>
    decreases n,
{
    if n < 2 {
        seq![(48 + n) as u8]
    } else {
        binary_digits((n / 2) as u32).push((48 + n % 2) as u8)
    }
}

/// The value of a sequence of ASCII binary digits, most significant first.
pub open spec fn parse_digits(s: Seq<u8>) -> nat
    decreases s.len(),
{
    if s.len() == 0 {
        0
    } else {
        (2 * parse_digits(s.drop_last()) + (s.last() - 48)) as nat
    }
}

/// The rendered digits are minimal: never empty, every digit is an ASCII '0'
/// or '1', and the representation has no leading zero except for the word 0,
/// which renders as the single digit "0".
pub proof fn lemma_binary_digits_minimal(n: u32)
    ensures
        binary_digits(n).len() >= 1,
        n >= 1 ==> binary_digits(n).first() == 49,
        n == 0 ==> binary_digits(n) == seq![48u8],
        forall|i: int|
            0 <= i < binary_digits(n).len() ==> (#[trigger] binary_digits(n)[i]) == 48
                || binary_digits(n)[i] == 49,
    decreases n,
{
    if n >= 2 {
        let prefix = binary_digits((n / 2) as u32);
        lemma_binary_digits_minimal((n / 2) as u32);
        assert(binary_digits(n).first() == prefix.first());
        assert(forall|i: int|
            0 <= i < prefix.len() ==> (#[trigger] binary_digits(n)[i]) == prefix[i]);
    }
}

/// Re-parsing the rendered binary digits of a word gives the word back.
pub proof fn lemma_binary_digits_round_trip(n: u32)
    ensures
        parse_digits(binary_digits(n)) == n,
    decreases n,
{
    if n < 2 {
        let s = seq![(48 + n) as u8];
        assert(s.drop_last() =~= Seq::<u8>::empty());
        assert(parse_digits(Seq::<u8>::empty()) == 0);
        assert(parse_digits(s) == 2 * parse_digits(s.drop_last()) + (s.last() - 48));
    } else {
        let prefix = binary_digits((n / 2) as u32);
        let s = prefix.push((48 + n % 2) as u8);
        assert(s.drop_last() =~= prefix);
        assert(s.last() == (48 + n % 2) as u8);
        lemma_binary_digits_round_trip((n / 2) as u32);
        assert(parse_digits(s) == 2 * parse_digits(prefix) + (s.last() - 48));
        assert(2 * ((n / 2) as u32) + n % 2 == n);
    }
}

/// Appends the binary representation of `number` to `bw`: the digits of
/// `binary_digits(number)`, in order.
pub fn write_binary_representation(number: u32, bw: &mut Vec<u8>)
    ensures
        final(bw)@ == old(bw)@ + binary_digits(number),
{
    let mut binary_number_list: Vec<u8> = Vec::new();
    let mut cur = number;
    loop
        invariant_except_break
            binary_digits(number) == binary_digits(cur) + binary_number_list@,
        ensures
            binary_digits(number) == binary_number_list@,
        decreases cur,
    {
        proof {
            lemma_and1_is_mod2(cur);
            lemma_shr1_is_div2(cur);
            assert(cur & 1 < 2);
        }
        let ghost prev = binary_number_list@;
        let digit = ZERO_CHAR_NUM + if cur & 1 == 1 {
            1u8
        } else {
            0u8
        };
        binary_number_list.insert(0, digit);
        proof {
            assert(binary_number_list@ =~= seq![digit] + prev);
            assert(digit == (48 + cur % 2) as u8);
        }
        let shifted = cur >> 1;
        if shifted == 0 {
            proof {
                assert(binary_digits(cur) =~= seq![(48 + cur % 2) as u8]);
                assert(binary_digits(number) =~= binary_number_list@);
            }
            break;
        }
        proof {
            assert(binary_digits(cur) =~= binary_digits((cur / 2) as u32).push(
                (48 + cur % 2) as u8,
            ));
            assert(binary_digits((cur / 2) as u32) + binary_number_list@ =~= binary_digits(number));
        }
        cur = shifted;
    }
    bw.append(&mut binary_number_list);
}

} // verus!
