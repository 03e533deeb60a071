use work_proof::little_endian::decode;

#[test]
fn decode_reads_the_least_significant_byte_first() {
    assert_eq!(decode(&[]), 0);
    assert_eq!(decode(&[7]), 7);
    assert_eq!(decode(&[0, 1]), 256);
    assert_eq!(decode(&[0x34, 0x12]), 0x1234);
    assert_eq!(decode(&[0xff; 4]), u32::MAX as u128);
    assert_eq!(decode(&[0xff; 16]), u128::MAX);
}

#[test]
fn decode_agrees_with_the_standard_library() {
    let bytes = [1u8, 2, 3, 4, 5, 6, 7, 8, 9, 10, 11, 12, 13, 14, 15, 16];
    assert_eq!(decode(&bytes), u128::from_le_bytes(bytes));
    assert_eq!(decode(&bytes[..4]), u32::from_le_bytes([1, 2, 3, 4]) as u128);
}
