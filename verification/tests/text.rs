use authcore::text::{
    append_text, chars_of, i64_to_string, parse_i64, read_number, same_bytes, same_text, string_of,
    to_hex, u64_to_string,
};

#[test]
fn u64_to_string_writes_decimal() {
    assert_eq!(u64_to_string(0), "0");
    assert_eq!(u64_to_string(7), "7");
    assert_eq!(u64_to_string(10), "10");
    assert_eq!(u64_to_string(1234567890), "1234567890");
    assert_eq!(u64_to_string(u64::MAX), "18446744073709551615");
}

#[test]
fn i64_to_string_writes_the_sign() {
    assert_eq!(i64_to_string(0), "0");
    assert_eq!(i64_to_string(123), "123");
    assert_eq!(i64_to_string(-45), "-45");
    assert_eq!(i64_to_string(i64::MAX), "9223372036854775807");
    assert_eq!(i64_to_string(i64::MIN), "-9223372036854775808");
}

#[test]
fn parse_i64_reads_what_was_written() {
    for n in [0i64, 1, -1, 123, 999, -4500, i64::MAX, i64::MIN] {
        assert_eq!(parse_i64(&i64_to_string(n)), Some(n));
    }
}

#[test]
fn parse_i64_accepts_signs_and_leading_zeros() {
    assert_eq!(parse_i64("+12"), Some(12));
    assert_eq!(parse_i64("007"), Some(7));
    assert_eq!(parse_i64("-0"), Some(0));
}

#[test]
fn parse_i64_rejects_what_is_no_number() {
    assert_eq!(parse_i64(""), None);
    assert_eq!(parse_i64("-"), None);
    assert_eq!(parse_i64("+"), None);
    assert_eq!(parse_i64("12a"), None);
    assert_eq!(parse_i64(" 12"), None);
    assert_eq!(parse_i64("1.5"), None);
    assert_eq!(parse_i64("credentials"), None);
}

#[test]
fn parse_i64_rejects_what_does_not_fit() {
    assert_eq!(parse_i64("9223372036854775808"), None);
    assert_eq!(parse_i64("-9223372036854775809"), None);
    assert_eq!(parse_i64("99999999999999999999999"), None);
}

#[test]
fn read_number_is_zero_for_what_is_no_number() {
    assert_eq!(read_number(&chars_of("1700000000")), 1700000000);
    assert_eq!(read_number(&chars_of("")), 0);
    assert_eq!(read_number(&chars_of("12x")), 0);
    assert_eq!(read_number(&chars_of("18446744073709551615")), u64::MAX);
    assert_eq!(read_number(&chars_of("18446744073709551616")), 0);
}

#[test]
fn to_hex_writes_two_digits_a_byte() {
    assert_eq!(to_hex(&[]), "");
    assert_eq!(to_hex(&[0x00, 0x0f, 0xa5, 0xff]), "000fa5ff");
}

#[test]
fn texts_and_bytes_compare_by_content() {
    assert!(same_text("abc", "abc"));
    assert!(!same_text("abc", "abd"));
    assert!(!same_text("abc", "ab"));
    assert!(same_bytes(b"", b""));
    assert!(!same_bytes(b"a", b"b"));
}

#[test]
fn chars_and_strings_convert_both_ways() {
    let text = "héllo wörld";
    assert_eq!(string_of(&chars_of(text)), text);
    assert_eq!(append_text("abc", "::test"), "abc::test");
}
