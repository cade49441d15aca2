use bqdrift::text::{
    chars_of, decimal_digits, hex_prefix, parse_u32, push_decimal, push_signed_decimal,
    push_zero_padded, replace_all, string_of,
};

#[test]
fn chars_and_strings_round_trip() {
    let text = "héllo → wörld";
    let chars = chars_of(text);
    assert_eq!(chars.len(), 13);
    assert_eq!(chars[1], 'é');
    assert_eq!(string_of(&chars), text);
    assert_eq!(string_of(&chars_of("")), "");
}

#[test]
fn decimal_numerals() {
    assert_eq!(string_of(&decimal_digits(0)), "0");
    assert_eq!(string_of(&decimal_digits(9)), "9");
    assert_eq!(string_of(&decimal_digits(10)), "10");
    assert_eq!(string_of(&decimal_digits(18446744073709551615)), "18446744073709551615");
    let mut out = String::from("n=");
    push_decimal(&mut out, 12345);
    assert_eq!(out, "n=12345");
}

#[test]
fn signed_numerals() {
    let mut out = String::new();
    push_signed_decimal(&mut out, -1);
    out.push(' ');
    push_signed_decimal(&mut out, 0);
    out.push(' ');
    push_signed_decimal(&mut out, i64::MIN);
    out.push(' ');
    push_signed_decimal(&mut out, i64::MAX);
    assert_eq!(out, "-1 0 -9223372036854775808 9223372036854775807");
}

#[test]
fn zero_padding() {
    let mut out = String::new();
    push_zero_padded(&mut out, 7, 2);
    out.push(',');
    push_zero_padded(&mut out, 123, 2);
    out.push(',');
    push_zero_padded(&mut out, 0, 4);
    out.push(',');
    push_zero_padded(&mut out, 5, 0);
    assert_eq!(out, "07,123,0000,5");
}

#[test]
fn parse_u32_reads_ascii_digits_only() {
    assert_eq!(parse_u32("42"), Some(42));
    assert_eq!(parse_u32("0"), Some(0));
    assert_eq!(parse_u32("007"), Some(7));
    assert_eq!(parse_u32("4294967295"), Some(u32::MAX));
    assert_eq!(parse_u32("4294967296"), None);
    assert_eq!(parse_u32("99999999999999999999999999"), None);
    assert_eq!(parse_u32(""), None);
    assert_eq!(parse_u32("+5"), None);
    assert_eq!(parse_u32("-5"), None);
    assert_eq!(parse_u32("1a"), None);
    assert_eq!(parse_u32(" 1"), None);
    assert_eq!(parse_u32("٣"), None);
}

#[test]
fn replace_all_scans_from_the_left() {
    assert_eq!(replace_all("a-b-c", "-", "+"), "a+b+c");
    assert_eq!(replace_all("aaa", "aa", "b"), "ba");
    assert_eq!(replace_all("aaaa", "aa", "a"), "aa");
    assert_eq!(replace_all("abc", "abcd", "x"), "abc");
    assert_eq!(replace_all("abc", "", "x"), "abc");
    assert_eq!(replace_all("", "a", "x"), "");
    assert_eq!(replace_all("abc", "abc", ""), "");
    assert_eq!(replace_all("x@p y@p", "@p", "'2024-01-01'"), "x'2024-01-01' y'2024-01-01'");
    assert_eq!(replace_all("é=é", "é", "e"), "e=e");
}

#[test]
fn hex_of_bytes() {
    let bytes = vec![0x00u8, 0xab, 0xff, 0x10];
    assert_eq!(hex_prefix(&bytes, 0), "");
    assert_eq!(hex_prefix(&bytes, 2), "00ab");
    assert_eq!(hex_prefix(&bytes, 4), "00abff10");
}
