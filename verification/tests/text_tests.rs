use file_agent::text::push_bytes;
use file_agent::text::push_decimal;
use file_agent::text::push_text;

fn decimal_of(n: u64) -> Vec<u8> {
    let mut out = Vec::new();
    push_decimal(&mut out, n);
    out
}

#[test]
fn decimal_of_zero_is_one_digit() {
    assert_eq!(decimal_of(0), b"0".to_vec());
}

#[test]
fn decimal_of_single_digits() {
    assert_eq!(decimal_of(7), b"7".to_vec());
    assert_eq!(decimal_of(9), b"9".to_vec());
}

#[test]
fn decimal_keeps_inner_and_trailing_zeros() {
    assert_eq!(decimal_of(10), b"10".to_vec());
    assert_eq!(decimal_of(120), b"120".to_vec());
    assert_eq!(decimal_of(1_000_000), b"1000000".to_vec());
    assert_eq!(decimal_of(90_807), b"90807".to_vec());
}

#[test]
fn decimal_of_the_largest_number() {
    assert_eq!(decimal_of(u64::MAX), b"18446744073709551615".to_vec());
}

#[test]
fn decimal_agrees_with_the_standard_formatter() {
    let samples: [u64; 8] = [0, 1, 42, 99, 100, 65_535, 4_294_967_296, u64::MAX - 1];
    for n in samples {
        assert_eq!(decimal_of(n), format!("{}", n).into_bytes());
    }
}

#[test]
fn decimal_is_appended_to_what_is_there() {
    let mut out = b"n=".to_vec();
    push_decimal(&mut out, 305);
    assert_eq!(out, b"n=305".to_vec());
}

#[test]
fn text_is_appended_as_utf8() {
    let mut out = b"[".to_vec();
    push_text(&mut out, "caf\u{e9} \u{2713}");
    push_text(&mut out, "]");
    assert_eq!(out, "[caf\u{e9} \u{2713}]".as_bytes().to_vec());
}

#[test]
fn empty_text_appends_nothing() {
    let mut out = b"abc".to_vec();
    push_text(&mut out, "");
    assert_eq!(out, b"abc".to_vec());
}

#[test]
fn bytes_are_appended_unchanged() {
    let mut out = vec![1u8, 2];
    push_bytes(&mut out, &[0, 255, 10]);
    push_bytes(&mut out, &[]);
    assert_eq!(out, vec![1u8, 2, 0, 255, 10]);
}
