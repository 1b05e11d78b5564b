//! Bitwise-arithmetic primitives on fixed-width unsigned words, with proofs.
//!
//! The library works on 32-bit words (and 8-bit words for circular shifts):
//! counting set bits, locating the highest set bit, setting, clearing and
//! inverting single bits, circular shifts, runs of consecutive ones, bit-pair
//! swaps, bit removal with compaction, rendering a binary representation, and
//! finding the lone unpaired element of a slice by an XOR fold.
//!
//! Bit indices count from 0 at the least significant bit. An index at or past
//! the word width is reported as an absent result (`None`); an exponent at or
//! past the word width in [`power_of_two`] is reported as [`Overflow`].

pub mod bitmath;
pub mod bitops;
pub mod hob;
pub mod popcount;
pub mod power;
pub mod render;
pub mod rotate;
pub mod runs;
pub mod swap;
pub mod unique;

pub use bitmath::bit_get;
pub use bitops::{
    invert_bit, invert_bit_spec, remove_bit, remove_bit_spec, set_bit, set_bit_spec, unset_bit,
    unset_bit_bitwise_not, unset_bit_spec, unset_bit_xor,
};
pub use hob::{hob, hob_comp_pot, hob_index, hob_thr};
pub use popcount::{binary_ones_count, binary_ones_count_sub_method, ones_count};
pub use power::{power_of_two, Overflow};
pub use render::{binary_digits, parse_digits, write_binary_representation};
pub use rotate::{circular_shl, circular_shr, rotl8_spec, rotr8_spec};
pub use runs::{consecutive_ones_entries_count, consecutive_ones_number, entries_count, ones_mask};
pub use swap::{swap_bits, swap_bits_spec, swap_bits_xor};
pub use unique::{find_unique, xor_fold};
