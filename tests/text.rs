use netprobe::text::{chars_of, parse_i32_exec, second_field_exec, strip_all_exec, trim_chars};

fn chars(s: &str) -> Vec<char> {
    chars_of(s)
}

fn parse(s: &str) -> Option<i32> {
    parse_i32_exec(&chars(s))
}

#[test]
fn parses_like_std() {
    assert_eq!(parse("-52"), Some(-52));
    assert_eq!(parse("+7"), Some(7));
    assert_eq!(parse("0042"), Some(42));
    assert_eq!(parse("2147483647"), Some(i32::MAX));
    assert_eq!(parse("-2147483648"), Some(i32::MIN));
    assert_eq!(parse("2147483648"), None);
    assert_eq!(parse("-2147483649"), None);
    assert_eq!(parse("99999999999999999999"), None);
    assert_eq!(parse(""), None);
    assert_eq!(parse("-"), None);
    assert_eq!(parse("+"), None);
    assert_eq!(parse(" 5"), None);
    assert_eq!(parse("5%"), None);
}

#[test]
fn trims_unicode_white_space() {
    assert_eq!(trim_chars(&chars("\u{3000} \tab c\r\n\u{a0}")), chars("ab c"));
    assert_eq!(trim_chars(&chars("   ")), chars(""));
}

#[test]
fn strips_every_occurrence() {
    assert_eq!(strip_all_exec(&chars("SSID: SSID:x"), &chars("SSID:")), chars(" x"));
    assert_eq!(strip_all_exec(&chars("aaa"), &chars("aa")), chars("a"));
    assert_eq!(strip_all_exec(&chars("87%%"), &chars("%")), chars("87"));
}

#[test]
fn second_field_between_separators() {
    assert_eq!(second_field_exec(&chars("a : b : c"), ':'), Some(chars(" b ")));
    assert_eq!(second_field_exec(&chars("a :"), ':'), Some(chars("")));
    assert_eq!(second_field_exec(&chars("abc"), ':'), None);
}
