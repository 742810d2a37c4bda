use ripgrok::text::{decimal_string, parse_u16_str, push_decimal};

#[test]
fn decimal_strings() {
    assert_eq!(decimal_string(0), "0");
    assert_eq!(decimal_string(7), "7");
    assert_eq!(decimal_string(10), "10");
    assert_eq!(decimal_string(u64::MAX), "18446744073709551615");
    let mut s = "port ".to_string();
    push_decimal(&mut s, 8080);
    assert_eq!(s, "port 8080");
}

#[test]
fn u16_reading_matches_std() {
    for text in ["0", "65535", "65536", "+1", "+", "-1", "", "00012", "1a", " 1", "99999999999", "٣"] {
        assert_eq!(parse_u16_str(text), text.parse::<u16>().ok(), "{text:?}");
    }
}
