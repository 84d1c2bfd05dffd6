use sabi_wallet::recovery::checksum::{compute_crc32, compute_fingerprint};

#[test]
fn crc32_of_check_string() {
    assert_eq!(compute_crc32(&b"123456789".to_vec()), 0xCBF4_3926);
}

#[test]
fn crc32_of_nothing_is_zero() {
    assert_eq!(compute_crc32(&Vec::new()), 0);
}

#[test]
fn crc32_of_a_sentence() {
    let text = b"The quick brown fox jumps over the lazy dog".to_vec();
    assert_eq!(compute_crc32(&text), 0x414F_A339);
}

#[test]
fn fingerprint_is_big_endian_crc() {
    assert_eq!(
        compute_fingerprint(&b"123456789".to_vec()),
        vec![0xCB, 0xF4, 0x39, 0x26]
    );
}
