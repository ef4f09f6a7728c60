//! Numbers and bytes as text.
use rdp_client_core::text::{decimal, hex, hex_prefix};

#[test]
fn numbers_in_decimal() {
    assert_eq!(decimal(0), "0");
    assert_eq!(decimal(7), "7");
    assert_eq!(decimal(10), "10");
    assert_eq!(decimal(1_234_567_890), "1234567890");
    assert_eq!(decimal(u32::MAX), "4294967295");
}

#[test]
fn numbers_in_hexadecimal() {
    assert_eq!(hex(0), "0");
    assert_eq!(hex(15), "F");
    assert_eq!(hex(16), "10");
    assert_eq!(hex(0xDEAD_BEEF), "DEADBEEF");
}

#[test]
fn bytes_in_hexadecimal() {
    assert_eq!(hex_prefix(&[]), "");
    assert_eq!(hex_prefix(&[0x00, 0x0a, 0xff, 0x7b]), "000aff7b");
}
