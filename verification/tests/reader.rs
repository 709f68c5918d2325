use rustedjvm::error::DecodeError;
use rustedjvm::reader::{join_u16, join_u32, read_slice, read_u16, read_u32, read_u8};

#[test]
fn join_u16_puts_the_high_byte_first() {
    assert_eq!(join_u16(0x01, 0x02), 0x0102);
    assert_eq!(join_u16(0xff, 0x00), 0xff00);
    assert_eq!(join_u16(0x00, 0xff), 0x00ff);
    assert_eq!(join_u16(0xff, 0xff), 0xffff);
}

#[test]
fn join_u16_is_not_the_sum_of_its_bytes() {
    assert_eq!(join_u16(0x01, 0x01), 257);
    assert_ne!(join_u16(0x01, 0x01), 2);
}

#[test]
fn join_u32_puts_the_most_significant_byte_first() {
    assert_eq!(join_u32(0x01, 0x02, 0x03, 0x04), 0x0102_0304);
    assert_eq!(join_u32(0xff, 0xff, 0xff, 0xff), u32::MAX);
    assert_eq!(join_u32(0, 0, 1, 0), 256);
}

#[test]
fn read_u8_reads_and_advances_by_one() {
    let bytes = vec![7u8, 9];
    let mut at = 1usize;
    assert_eq!(read_u8(&bytes, &mut at), Ok(9));
    assert_eq!(at, 2);
}

#[test]
fn read_u8_at_the_end_is_truncated_and_stays() {
    let bytes = vec![7u8, 9];
    let mut at = 2usize;
    assert_eq!(read_u8(&bytes, &mut at), Err(DecodeError::Truncated));
    assert_eq!(at, 2);
}

#[test]
fn read_u16_reads_big_endian_and_advances_by_two() {
    let bytes = vec![0u8, 0x12, 0x34, 0];
    let mut at = 1usize;
    assert_eq!(read_u16(&bytes, &mut at), Ok(0x1234));
    assert_eq!(at, 3);
}

#[test]
fn read_u16_with_one_byte_left_is_truncated_and_stays() {
    let bytes = vec![0u8, 0x12];
    let mut at = 1usize;
    assert_eq!(read_u16(&bytes, &mut at), Err(DecodeError::Truncated));
    assert_eq!(at, 1);
}

#[test]
fn read_u32_reads_big_endian_and_advances_by_four() {
    let bytes = vec![0x00u8, 0x00, 0x01, 0x02];
    let mut at = 0usize;
    assert_eq!(read_u32(&bytes, &mut at), Ok(258));
    assert_eq!(at, 4);
}

#[test]
fn read_u32_with_three_bytes_left_is_truncated() {
    let bytes = vec![1u8, 2, 3];
    let mut at = 0usize;
    assert_eq!(read_u32(&bytes, &mut at), Err(DecodeError::Truncated));
    assert_eq!(at, 0);
}

#[test]
fn read_slice_borrows_the_bytes_at_the_cursor() {
    let bytes = vec![1u8, 2, 3, 4, 5];
    let mut at = 1usize;
    let expected: &[u8] = &[2, 3, 4];
    assert_eq!(read_slice(&bytes, &mut at, 3), Ok(expected));
    assert_eq!(at, 4);
}

#[test]
fn read_slice_of_nothing_succeeds_at_the_end() {
    let bytes = vec![1u8, 2];
    let mut at = 2usize;
    let expected: &[u8] = &[];
    assert_eq!(read_slice(&bytes, &mut at, 0), Ok(expected));
    assert_eq!(at, 2);
}

#[test]
fn read_slice_past_the_end_is_truncated() {
    let bytes = vec![1u8, 2, 3];
    let mut at = 2usize;
    assert_eq!(read_slice(&bytes, &mut at, 2), Err(DecodeError::Truncated));
    assert_eq!(at, 2);
}

#[test]
fn a_cursor_beyond_the_buffer_is_truncated() {
    let bytes = vec![1u8, 2, 3];
    let mut at = usize::MAX;
    assert_eq!(read_u16(&bytes, &mut at), Err(DecodeError::Truncated));
    assert_eq!(at, usize::MAX);
}
