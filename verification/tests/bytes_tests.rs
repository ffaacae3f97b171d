use offload_core::bytes::{bytes_eq, copy_bytes, ct_bytes_eq, dec_u64, push_be64, to_hex, zero_vec};

#[test]
fn decimal_rendering() {
    assert_eq!(dec_u64(0), b"0".to_vec());
    assert_eq!(dec_u64(7), b"7".to_vec());
    assert_eq!(dec_u64(1234567890), b"1234567890".to_vec());
    assert_eq!(dec_u64(u64::MAX), b"18446744073709551615".to_vec());
}

#[test]
fn hex_rendering() {
    assert_eq!(to_hex(&vec![]), b"".to_vec());
    assert_eq!(to_hex(&vec![0x00, 0xff, 0x1a]), b"00ff1a".to_vec());
    assert_eq!(to_hex(&vec![0xde, 0xad, 0xbe, 0xef]), b"deadbeef".to_vec());
}

#[test]
fn big_endian_u64() {
    let mut v = Vec::new();
    push_be64(&mut v, 0x0102030405060708);
    assert_eq!(v, vec![1, 2, 3, 4, 5, 6, 7, 8]);
    let mut w = Vec::new();
    push_be64(&mut w, 40); // 5 bytes * 8 bits
    assert_eq!(w, vec![0, 0, 0, 0, 0, 0, 0, 40]);
}

#[test]
fn byte_comparisons() {
    assert!(bytes_eq(b"abc", b"abc"));
    assert!(!bytes_eq(b"abc", b"abd"));
    assert!(!bytes_eq(b"abc", b"ab"));
    assert!(ct_bytes_eq(b"same-bytes", b"same-bytes"));
    assert!(!ct_bytes_eq(b"same-bytes", b"same-bytez"));
    assert!(!ct_bytes_eq(b"", b"x"));
    assert!(ct_bytes_eq(b"", b""));
}

#[test]
fn copies_and_zeros() {
    assert_eq!(copy_bytes(b"hello"), b"hello".to_vec());
    assert_eq!(zero_vec(4), vec![0u8; 4]);
    assert_eq!(zero_vec(0), Vec::<u8>::new());
}
