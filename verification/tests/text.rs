use autoasr::text::{
    chars_of, decimal_len, digit_char, digit_of, index_of, is_digit_char, parse_u32, push_chars,
    push_decimal, push_padded, read_number, trim_bounds, unify_newlines,
};

fn chars(text: &str) -> Vec<char> {
    text.chars().collect()
}

#[test]
fn decimal_numbers() {
    let mut out = String::from("n=");
    push_decimal(&mut out, 0);
    push_decimal(&mut out, 907);
    push_decimal(&mut out, u64::MAX);
    assert_eq!(out, "n=090718446744073709551615");
    assert_eq!(decimal_len(0), 1);
    assert_eq!(decimal_len(9), 1);
    assert_eq!(decimal_len(10), 2);
    assert_eq!(decimal_len(u64::MAX), 20);
    assert_eq!(digit_char(7), '7');
    assert_eq!(digit_of('7'), 7);
    assert!(is_digit_char('0') && is_digit_char('9'));
    assert!(!is_digit_char('/') && !is_digit_char(':') && !is_digit_char('٣'));
}

#[test]
fn zero_padding() {
    let mut out = String::new();
    push_padded(&mut out, 7, 3);
    out.push('|');
    push_padded(&mut out, 1234, 3);
    out.push('|');
    push_padded(&mut out, 0, 0);
    out.push('|');
    push_padded(&mut out, 42, 2);
    assert_eq!(out, "007|1234|0|42");
}

#[test]
fn characters_in_and_out() {
    let all = chars_of("a轨道b");
    assert_eq!(all, vec!['a', '轨', '道', 'b']);
    let mut out = String::from(">");
    push_chars(&mut out, &all, 1, 3);
    assert_eq!(out, ">轨道");
    push_chars(&mut out, &all, 2, 2);
    assert_eq!(out, ">轨道");
}

#[test]
fn searching_and_trimming_positions() {
    let text = chars("ab.cd.e");
    assert_eq!(index_of(&text, 0, 7, '.'), 2);
    assert_eq!(index_of(&text, 3, 7, '.'), 5);
    assert_eq!(index_of(&text, 3, 5, '.'), 5);
    assert_eq!(index_of(&text, 6, 7, '.'), 7);
    assert_eq!(trim_bounds(&chars("  ab c \n")), (2, 6));
    assert_eq!(trim_bounds(&chars("   ")), (3, 3));
    assert_eq!(trim_bounds(&chars("")), (0, 0));
}

#[test]
fn numbers_are_read_up_to_a_limit() {
    let text = chars("x0123456y");
    assert_eq!(read_number(&text, 1, 8, 123_456), Some(123_456));
    assert_eq!(read_number(&text, 1, 8, 123_455), None);
    assert_eq!(read_number(&text, 1, 9, u64::MAX), None);
    assert_eq!(read_number(&text, 3, 3, 0), Some(0));
    let big = chars("18446744073709551616");
    assert_eq!(read_number(&big, 0, 20, u64::MAX), None);
    assert_eq!(read_number(&big, 0, 19, u64::MAX), Some(1844674407370955161));
}

#[test]
fn unsigned_integers_are_read_like_the_standard_library_reads_them() {
    for text in ["0", "+0", "007", "42", "4294967295", "4294967296", "", "+", "-1", "1_0",
        " 1", "1 ", "++1", "0x10", "١"] {
        let all = chars(text);
        assert_eq!(parse_u32(&all, 0, all.len()), text.parse::<u32>().ok(), "{:?}", text);
    }
}

#[test]
fn line_ends_are_unified() {
    assert_eq!(unify_newlines(&chars("a\r\nb\rc\n\r\n")), chars("a\nb\rc\n\n"));
    assert_eq!(unify_newlines(&chars("\r")), chars("\r"));
    assert_eq!(unify_newlines(&chars("")), chars(""));
}
