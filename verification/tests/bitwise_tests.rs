use understanding_bitwise::{
    binary_ones_count, binary_ones_count_sub_method, circular_shl, circular_shr,
    consecutive_ones_entries_count, consecutive_ones_number, find_unique, hob, hob_comp_pot,
    hob_thr, invert_bit, power_of_two, remove_bit, set_bit, swap_bits, swap_bits_xor, unset_bit,
    unset_bit_bitwise_not, unset_bit_xor, write_binary_representation, Overflow,
};

#[test]
fn test_power_of_two() {
    assert_eq!(power_of_two(0), Ok(1));
    assert_eq!(power_of_two(2), Ok(4));
    assert_eq!(power_of_two(3), Ok(8));
    assert_eq!(power_of_two(31), Ok(2147483648));
    assert_eq!(power_of_two(32), Err(Overflow));
    assert_eq!(power_of_two(u32::MAX), Err(Overflow));
}

fn bin_rep_str(number: u32) -> String {
    let mut vec = Vec::<u8>::with_capacity(u32::BITS as usize);
    write_binary_representation(number, &mut vec);
    std::str::from_utf8(vec.as_slice()).unwrap().to_owned()
}

#[test]
fn test_write_binary_representation() {
    let mut str = bin_rep_str(0b11100100);
    assert_eq!(str, String::from("11100100"));

    str = bin_rep_str(u32::MAX);
    assert_eq!(str, String::from("11111111111111111111111111111111"));

    str = bin_rep_str(u32::MIN);
    assert_eq!(str, String::from("0"));

    str = bin_rep_str(1);
    assert_eq!(str, String::from("1"));
}

fn general_test_binary_ones_count<F>(f: F)
where
    F: Fn(u32) -> u32,
{
    let mut count = f(0b11100100);
    assert_eq!(count, 4);

    count = f(u32::MAX);
    assert_eq!(count, 32);

    count = f(u32::MIN);
    assert_eq!(count, 0);

    count = f(1);
    assert_eq!(count, 1);
}

#[test]
fn test_binary_ones_count() {
    general_test_binary_ones_count(binary_ones_count);
}

#[test]
fn test_binary_ones_count_sub_method() {
    general_test_binary_ones_count(binary_ones_count_sub_method);
}

fn general_test_hob<F>(f: F)
where
    F: Fn(u32) -> Option<u32>,
{
    let mut index = f(0b11100100);
    assert_eq!(index, Some(7));

    index = f(u32::MAX);
    assert_eq!(index, Some(31));

    index = f(1);
    assert_eq!(index, Some(0));

    index = f(4);
    assert_eq!(index, Some(2));

    index = f(u32::MIN);
    assert_eq!(index, None);

    index = f(1982);
    assert_eq!(1 << index.unwrap(), 0b10000000000);

    index = f(1 << u32::BITS - 1);
    assert_eq!(index.unwrap(), u32::BITS - 1);
}

#[test]
fn test_hob() {
    general_test_hob(hob);
}

#[test]
fn test_hob_thr() {
    general_test_hob(hob_thr);
}

#[test]
fn test_hob_comp_pot() {
    general_test_hob(hob_comp_pot);
}

#[test]
fn test_set_bit() {
    assert_eq!(set_bit(9, 1), Some(11));
    assert_eq!(set_bit(9, 32), None);
    assert_eq!(set_bit(0, 0), Some(1));
    assert_eq!(set_bit(1, 0), Some(1));
    assert_eq!(set_bit(0b10110110000, 18), Some(263600));
}

fn general_test_unset_bit<F>(f: F)
where
    F: Fn(u32, u32) -> Option<u32>,
{
    assert_eq!(f(11, 1), Some(9));
    assert_eq!(f(9, 32), None);
    assert_eq!(f(0, 0), Some(0));
    assert_eq!(f(1, 0), Some(0));
    assert_eq!(f(263600, 18), Some(0b10110110000));
    assert_eq!(f(0b11010, 5), Some(0b11010));
}

#[test]
fn test_unset_bit() {
    general_test_unset_bit(unset_bit);
}

#[test]
fn test_unset_bit_xor() {
    general_test_unset_bit(unset_bit_xor);
}

#[test]
fn test_unset_bit_bitwise_not() {
    general_test_unset_bit(unset_bit_bitwise_not);
}

#[test]
fn test_set_unset_bit() {
    for unset_bit_f in [unset_bit, unset_bit_xor] {
        for i in (0..u32::BITS).step_by(2) {
            assert_eq!(
                unset_bit_f(set_bit(0b10101010101010101010101010101010, i).unwrap(), i).unwrap(),
                0b10101010101010101010101010101010
            );
        }
    }
}

#[test]
fn test_invert_bit() {
    assert_eq!(invert_bit(0, 0), Some(1));
    assert_eq!(invert_bit(0, 1), Some(0b10));
    assert_eq!(invert_bit(5, 1), Some(7));

    for i in 0..u32::BITS {
        assert_eq!(invert_bit(invert_bit(0, i).unwrap(), i).unwrap(), 0);
    }
}

#[test]
fn test_circular_shl() {
    assert_eq!(circular_shl(0b10000010, 1), 0b00000101);
    assert_eq!(circular_shl(0b11000010, 2), 0b00001011);
    assert_eq!(circular_shl(0b11000010, 10), 0b00001011);
    assert_eq!(circular_shl(0, 5), 0);
    assert_eq!(circular_shr(228, 0), 228);
    assert_eq!(circular_shl(0b10111010, 5), 0b1010111);
}

#[test]
fn test_circular_shr() {
    assert_eq!(circular_shr(0b10000010, 1), 0b1000001);
    assert_eq!(circular_shr(0b10000011, 3), 0b1110000);
    assert_eq!(circular_shr(0, 5), 0);
    assert_eq!(circular_shr(0b11000010, 8), 0b11000010);
    assert_eq!(circular_shr(0b11000010, 9), 0b1100001);
    assert_eq!(circular_shr(0b10111010, 5), 0b11010101);
}

#[test]
fn test_circular_shifts() {
    for count in 0..2 * u8::BITS {
        for number in 0..=u8::MAX {
            assert_eq!(
                circular_shl(
                    circular_shr(circular_shr(circular_shl(number, count), count), count),
                    count
                ),
                number
            );
        }
    }
}

#[test]
fn test_consecutive_ones_number() {
    let mut number = 1;
    for count in 1..u32::BITS {
        assert_eq!(consecutive_ones_number(count), Some(number));
        number |= 1 << count;
    }
    assert_eq!(consecutive_ones_number(0), None);
    assert_eq!(consecutive_ones_number(32), Some(u32::MAX));
    assert_eq!(consecutive_ones_number(33), None);
    assert_eq!(consecutive_ones_number(u32::MAX), None);
}

#[test]
fn test_consecutive_ones_entries_count() {
    assert_eq!(consecutive_ones_entries_count(0b111011011, 1).unwrap(), 7);
    assert_eq!(consecutive_ones_entries_count(0b111011011, 2).unwrap(), 4);
    assert_eq!(consecutive_ones_entries_count(0b111011011, 3).unwrap(), 1);
    assert_eq!(consecutive_ones_entries_count(0b111011111, 3).unwrap(), 4);
    assert_eq!(consecutive_ones_entries_count(0b11110111, 2).unwrap(), 5);
    assert_eq!(
        consecutive_ones_entries_count(0b1111111111011110000001, 9).unwrap(),
        2
    );
    assert_eq!(consecutive_ones_entries_count(u32::MAX, 32).unwrap(), 1);
    assert_eq!(consecutive_ones_entries_count(u32::MAX, 31).unwrap(), 2);
    assert_eq!(consecutive_ones_entries_count(u32::MAX, 0), None);
    assert_eq!(consecutive_ones_entries_count(0, 0), None);
    assert_eq!(consecutive_ones_entries_count(0, 1).unwrap(), 0);
}

fn general_test_swap_bits<F>(f: F)
where
    F: Fn(u32, u32, u32) -> Option<u32>,
{
    assert_eq!(f(0b101, 2, 2), Some(0b101));
    assert_eq!(f(0b101, 228, 2), None);
    assert_eq!(f(0b101, 2, 282), None);
    assert_eq!(f(0b101, 282, 282), None);
    assert_eq!(f(0b101, 0, 1), Some(0b110));
    assert_eq!(f(0b101, 1, 0), Some(0b110));
    assert_eq!(f(0, 0, 1), Some(0));
    assert_eq!(f(u32::MAX, 0, 31), Some(u32::MAX));
    assert_eq!(f(u32::MAX, 0, 32), None);
    assert_eq!(f(0b11001100101, 10, 1), Some(0b1001100111));
    assert_eq!(f(0b11001100101, 10, 5), Some(0b11001100101));
    assert_eq!(f(0b11001100101, 1, 31), Some(0b11001100101));
    assert_eq!(f(0b11001100101, 0, 31), Some(0b11001100100 | 1 << 31));
    const NUMBER: u32 = 0b110101;
    let mut number = NUMBER;
    number = f(number, 5, 1).unwrap();
    number = f(number, 5, 1).unwrap();
    assert_eq!(number, NUMBER);
}

#[test]
fn test_swap_bits() {
    general_test_swap_bits(swap_bits);
}

#[test]
fn test_swap_bits_xor() {
    general_test_swap_bits(swap_bits_xor);
}

#[test]
fn test_remove_bit() {
    assert_eq!(remove_bit(11, 2), Some(7));
    assert_eq!(remove_bit(0b1110100, 3), Some(0b111100));
    assert_eq!(remove_bit(0b1011, 1), Some(0b101));
    assert_eq!(remove_bit(0, 0), Some(0));
    assert_eq!(remove_bit(228, 228), None);
    assert_eq!(
        1,
        (0..u32::BITS - 1).fold(u32::MAX, |acc, _| remove_bit(acc, 0).unwrap())
    );
}

#[test]
fn test_find_unique() {
    assert_eq!(find_unique(&[1, 0, 2, 2, 0, 228, 1]), Some(228));
    assert_eq!(
        find_unique(&vec![0b110, 0b10, 0b111, 0b110, 0b10, 0b111, 0b101]),
        Some(0b101)
    );
    assert_eq!(find_unique(&[0u32; 0]), None);
    assert_eq!(find_unique(&vec![0u32; 0]), None);
    assert_eq!(find_unique(&Vec::<u32>::new()), None);
}
