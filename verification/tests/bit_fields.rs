use input_capture::bits::{infer_bit_depth, read_field, read_signed, read_unsigned};

#[test]
fn range_of_1023_has_depth_ten() {
    assert_eq!(infer_bit_depth(0, 1023, 16), 10);
}

#[test]
fn range_of_65535_has_depth_sixteen() {
    assert_eq!(infer_bit_depth(0, 65535, 16), 16);
}

#[test]
fn depth_is_the_rounded_up_logarithm_of_the_range() {
    assert_eq!(infer_bit_depth(0, 255, 8), 8);
    assert_eq!(infer_bit_depth(0, 256, 16), 8);
    assert_eq!(infer_bit_depth(0, 257, 16), 9);
    assert_eq!(infer_bit_depth(0, 1024, 16), 10);
    assert_eq!(infer_bit_depth(0, 1025, 16), 11);
    assert_eq!(infer_bit_depth(0, 1, 8), 0);
    assert_eq!(infer_bit_depth(0, 2, 8), 1);
    assert_eq!(infer_bit_depth(-32768, 32767, 16), 16);
    assert_eq!(infer_bit_depth(i32::MIN, i32::MAX, 32), 32);
}

#[test]
fn empty_range_falls_back_to_the_declared_width() {
    assert_eq!(infer_bit_depth(0, 0, 12), 12);
    assert_eq!(infer_bit_depth(10, 5, 8), 8);
}

#[test]
fn unsigned_field_is_read_least_significant_bit_first() {
    assert_eq!(read_unsigned(&[0xff, 0x03], 0, 10), 1023);
    assert_eq!(read_unsigned(&[0x34, 0x12], 0, 16), 0x1234);
    assert_eq!(read_unsigned(&[0b0000_0100], 2, 1), 1);
    assert_eq!(read_unsigned(&[0b0000_0100], 3, 1), 0);
}

#[test]
fn field_may_start_inside_a_byte_and_end_in_the_next() {
    assert_eq!(read_unsigned(&[0b1010_0000, 0b0000_0001], 5, 4), 13);
    assert_eq!(read_unsigned(&[0xf0, 0xff, 0x0f], 4, 16), 0xffff);
}

#[test]
fn field_of_32_bits_is_read_whole() {
    assert_eq!(read_unsigned(&[0x78, 0x56, 0x34, 0x12], 0, 32), 0x12345678);
    assert_eq!(read_unsigned(&[0xff, 0xff, 0xff, 0xff], 0, 32), u32::MAX);
    assert_eq!(read_unsigned(&[0x80, 0xff, 0xff, 0xff, 0x7f], 7, 32), u32::MAX);
}

#[test]
fn signed_field_is_read_in_twos_complement() {
    assert_eq!(read_signed(&[0xff], 0, 8), -1);
    assert_eq!(read_signed(&[0x80], 0, 8), -128);
    assert_eq!(read_signed(&[0x7f], 0, 8), 127);
    assert_eq!(read_signed(&[0b0000_0101], 0, 3), -3);
    assert_eq!(read_signed(&[0b0000_0101], 0, 4), 5);
    assert_eq!(read_signed(&[0x01], 0, 1), -1);
    assert_eq!(read_signed(&[0x01, 0x80], 0, 16), -32767);
    assert_eq!(read_signed(&[0xff, 0xff, 0xff, 0xff], 0, 32), -1);
}

#[test]
fn field_value_follows_the_sign_of_the_field() {
    assert_eq!(read_field(&[0xff], 0, 8, false), 255);
    assert_eq!(read_field(&[0xff], 0, 8, true), -1);
    assert_eq!(read_field(&[0xff, 0xff, 0xff, 0xff], 0, 32, false), -1);
}
