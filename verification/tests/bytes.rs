use teacup::bytes::array_to_u8_vec;

#[test]
fn indices_become_their_bytes_in_memory_order() {
    let indices: [u16; 6] = [0, 2, 1, 3, 1, 2];
    let bytes = array_to_u8_vec(&indices);
    let mut expected: Vec<u8> = Vec::new();
    for index in indices {
        expected.extend_from_slice(&index.to_ne_bytes());
    }
    assert_eq!(bytes, expected);
}

#[test]
fn both_bytes_of_a_value_are_kept() {
    let bytes = array_to_u8_vec(&[0x1234, 0xabcd, 0x00ff, 0xff00]);
    assert_eq!(bytes.len(), 8);
    let little: Vec<u8> = vec![0x34, 0x12, 0xcd, 0xab, 0xff, 0x00, 0x00, 0xff];
    let big: Vec<u8> = vec![0x12, 0x34, 0xab, 0xcd, 0x00, 0xff, 0xff, 0x00];
    assert!(bytes == little || bytes == big);
    assert_eq!(bytes == little, 1u16.to_ne_bytes() == [1, 0]);
}

#[test]
fn no_values_are_no_bytes() {
    assert!(array_to_u8_vec(&[]).is_empty());
}
