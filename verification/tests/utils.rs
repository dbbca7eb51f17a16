use mcproto_rs::utils::{decimal, hex, parse_hex_char, take};
use mcproto_rs::DeserializeErr;

#[test]
fn take_splits_the_front_off() {
    let data = [1u8, 2, 3, 4];
    let taken = take(3, &data).expect("enough bytes");
    assert_eq!(taken.value, &[1, 2, 3]);
    assert_eq!(taken.data, &[4]);
    let taken = take(0, &data).expect("enough bytes");
    assert!(taken.value.is_empty());
    assert_eq!(taken.data, &data);
    let taken = take(4, &data).expect("enough bytes");
    assert_eq!(taken.value, &data);
    assert!(taken.data.is_empty());
}

#[test]
fn take_of_too_much_is_eof() {
    assert!(matches!(take(5, &[1, 2, 3, 4]), Err(DeserializeErr::Eof)));
    assert!(matches!(take(1, &[]), Err(DeserializeErr::Eof)));
}

#[test]
fn hex_writes_two_digits_per_byte() {
    assert_eq!(hex(&[]), "");
    assert_eq!(hex(&[0x00, 0x0f, 0xa5, 0xff]), "000fa5ff");
}

#[test]
fn parse_hex_char_reads_both_cases() {
    assert_eq!(parse_hex_char(b'0'), Some(0));
    assert_eq!(parse_hex_char(b'9'), Some(9));
    assert_eq!(parse_hex_char(b'a'), Some(10));
    assert_eq!(parse_hex_char(b'f'), Some(15));
    assert_eq!(parse_hex_char(b'A'), Some(10));
    assert_eq!(parse_hex_char(b'F'), Some(15));
    assert_eq!(parse_hex_char(b'g'), None);
    assert_eq!(parse_hex_char(b'G'), None);
    assert_eq!(parse_hex_char(b'/'), None);
    assert_eq!(parse_hex_char(b':'), None);
    assert_eq!(parse_hex_char(b'@'), None);
    assert_eq!(parse_hex_char(b'`'), None);
    assert_eq!(parse_hex_char(0xFF), None);
}

#[test]
fn decimal_writes_base_ten() {
    assert_eq!(decimal(0), "0");
    assert_eq!(decimal(9), "9");
    assert_eq!(decimal(10), "10");
    assert_eq!(decimal(255), "255");
    assert_eq!(decimal(u64::MAX), "18446744073709551615");
}
