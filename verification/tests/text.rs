use capview::number::{parse_u16, parse_u32, parse_u8, parse_up_to, to_decimal, to_hex};
use capview::text::{
    chars_of, contains, from_bytes, precedes, same, split, split_lines, string_of, to_lower, trim,
};

fn lower(s: &str) -> String {
    string_of(&to_lower(&chars_of(s)))
}

#[test]
fn lower_case_beyond_ascii() {
    assert_eq!(lower("HeLLo_09"), "hello_09");
    assert_eq!(lower("ÄÖÜ Größe"), "äöü größe");
    assert_eq!(lower("İ"), "i\u{307}");
}

#[test]
fn bytes_with_faults_become_text() {
    assert_eq!(from_bytes(b"NV12"), "NV12");
    assert_eq!(from_bytes("é".as_bytes()), "é");
    assert_eq!(from_bytes(&[0x41, 0xff, 0x42]), "A\u{fffd}B");
}

#[test]
fn white_space_and_pieces() {
    assert_eq!(string_of(trim(&chars_of(" \t a b\u{a0}\n"))), "a b");
    let p: Vec<String> = split(&chars_of("a,,b,"), ',').iter().map(|v| string_of(v)).collect();
    assert_eq!(p, ["a", "", "b", ""]);
    let l: Vec<String> = split_lines(&chars_of("x\r\ny\n\nz")).iter().map(|v| string_of(v)).collect();
    assert_eq!(l, ["x", "y", "", "z"]);
    assert!(contains(&chars_of("abc"), &chars_of("")));
    assert!(contains(&chars_of("abcabd"), &chars_of("abd")));
    assert!(!contains(&chars_of("ab"), &chars_of("abc")));
    assert!(same("a", "a") && !same("a", "b"));
}

#[test]
fn order_of_texts() {
    assert!(precedes(&chars_of("a"), &chars_of("b")));
    assert!(precedes(&chars_of("a"), &chars_of("aa")));
    assert!(!precedes(&chars_of("b"), &chars_of("a")));
}

#[test]
fn numbers_are_read_and_written() {
    assert_eq!(parse_u8(&chars_of("255")), Some(255));
    assert_eq!(parse_u8(&chars_of("256")), None);
    assert_eq!(parse_u16(&chars_of("+7")), Some(7));
    assert_eq!(parse_u32(&chars_of("")), None);
    assert_eq!(parse_u32(&chars_of("+")), None);
    assert_eq!(parse_up_to(&chars_of("18446744073709551615"), u64::MAX), Some(u64::MAX));
    assert_eq!(parse_up_to(&chars_of("18446744073709551616"), u64::MAX), None);
    for n in [0u64, 9, 10, 1234567890, u64::MAX] {
        assert_eq!(string_of(&to_decimal(n)), n.to_string());
        assert_eq!(parse_up_to(&to_decimal(n), u64::MAX), Some(n));
    }
    assert_eq!(string_of(&to_hex(0x2601)), "2601");
}
