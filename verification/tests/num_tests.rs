use ps3dec_gui::num::parse_i32_chars;
use ps3dec_gui::num::scan_u32_chars;
use ps3dec_gui::num::u32_to_string;

fn chars(s: &str) -> Vec<char> {
    s.chars().collect()
}

#[test]
fn u32_values_print_in_decimal() {
    assert_eq!(u32_to_string(0), "0");
    assert_eq!(u32_to_string(7), "7");
    assert_eq!(u32_to_string(42), "42");
    assert_eq!(u32_to_string(100), "100");
    assert_eq!(u32_to_string(u32::MAX), "4294967295");
}

#[test]
fn whole_string_parses_as_i32() {
    assert_eq!(parse_i32_chars(&chars("0"), 0), Some(0));
    assert_eq!(parse_i32_chars(&chars("123"), 0), Some(123));
    assert_eq!(parse_i32_chars(&chars("+7"), 0), Some(7));
    assert_eq!(parse_i32_chars(&chars("-1"), 0), Some(-1));
    assert_eq!(parse_i32_chars(&chars("2147483647"), 0), Some(i32::MAX));
    assert_eq!(parse_i32_chars(&chars("-2147483648"), 0), Some(i32::MIN));
}

#[test]
fn bad_or_out_of_range_text_does_not_parse() {
    assert_eq!(parse_i32_chars(&chars(""), 0), None);
    assert_eq!(parse_i32_chars(&chars("-"), 0), None);
    assert_eq!(parse_i32_chars(&chars("+"), 0), None);
    assert_eq!(parse_i32_chars(&chars("12a"), 0), None);
    assert_eq!(parse_i32_chars(&chars("2147483648"), 0), None);
    assert_eq!(parse_i32_chars(&chars("-2147483649"), 0), None);
    assert_eq!(parse_i32_chars(&chars("--1"), 0), None);
}

#[test]
fn parse_starts_at_the_given_offset() {
    assert_eq!(parse_i32_chars(&chars("code=99"), 5), Some(99));
}

#[test]
fn scanning_stops_at_the_first_non_digit() {
    let text = chars("128, more");
    let (value, next) = scan_u32_chars(&text, 0).unwrap();
    assert_eq!(value, 128);
    assert_eq!(next, 3);
    assert_eq!(scan_u32_chars(&text, 3), None);
    assert_eq!(scan_u32_chars(&chars("4294967296,"), 0), None);
}
