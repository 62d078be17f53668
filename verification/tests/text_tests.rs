use peekpe::listing::lowercase;
use peekpe::text::{decimal_string, lossy_string, push_decimal, push_hex, push_hex_padded, push_padded};

#[test]
fn writes_decimal() {
    assert_eq!(decimal_string(0), "0");
    assert_eq!(decimal_string(7), "7");
    assert_eq!(decimal_string(10), "10");
    assert_eq!(decimal_string(65535), "65535");
    assert_eq!(decimal_string(u64::MAX), "18446744073709551615");
    let mut s = String::from("n=");
    push_decimal(&mut s, 42);
    assert_eq!(s, "n=42");
}

#[test]
fn writes_hex() {
    let mut s = String::new();
    push_hex(&mut s, 0);
    assert_eq!(s, "0");
    let mut s = String::new();
    push_hex(&mut s, 0xDEADbeef);
    assert_eq!(s, "deadbeef");
    let mut s = String::new();
    push_hex_padded(&mut s, 0x22, 4);
    assert_eq!(s, "0022");
    let mut s = String::new();
    push_hex_padded(&mut s, 0x1_4000_0000, 16);
    assert_eq!(s, "0000000140000000");
    let mut s = String::new();
    push_hex_padded(&mut s, 0x12345, 2);
    assert_eq!(s, "12345");
    let mut s = String::new();
    push_hex_padded(&mut s, u64::MAX, 0);
    assert_eq!(s, format!("{:x}", u64::MAX));
}

#[test]
fn pads_to_width() {
    let mut s = String::new();
    push_padded(&mut s, ".text", 8);
    assert_eq!(s, ".text   ");
    let mut s = String::new();
    push_padded(&mut s, "секция", 8);
    assert_eq!(s, "секция  ");
    let mut s = String::new();
    push_padded(&mut s, "longer_name", 8);
    assert_eq!(s, "longer_name");
}

#[test]
fn decodes_lossy_utf8() {
    assert_eq!(lossy_string(b"plain"), "plain");
    assert_eq!(lossy_string("ключ".as_bytes()), "ключ");
    assert_eq!(lossy_string(&[0x41, 0xC3]), "A\u{FFFD}");
}

#[test]
fn lowercases() {
    assert_eq!(lowercase("KERNEL32.DLL"), "kernel32.dll");
    assert_eq!(lowercase("Папка"), "папка");
}
