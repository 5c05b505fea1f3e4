use ksu_webui::json::escape_json;
use ksu_webui::number::{parse_number, push_decimal, push_signed_decimal, to_hex};
use ksu_webui::query::get_query_param;
use ksu_webui::text::{
    chars_of, find, is_whitespace, next_line, next_word, same, split_once, starts_with_lowered,
    string_of, to_lower, trim,
};

fn all_lines(s: &str) -> Vec<String> {
    let chars = chars_of(s);
    let mut rest: &[char] = chars.as_slice();
    let mut out = Vec::new();
    while let Some((line, more)) = next_line(rest) {
        out.push(string_of(line));
        rest = more;
    }
    out
}

fn decimal(n: u64) -> String {
    let mut s = String::new();
    push_decimal(&mut s, n);
    s
}

#[test]
fn whitespace_is_that_of_unicode() {
    for n in 0..=0x10ffffu32 {
        if let Some(c) = char::from_u32(n) {
            assert_eq!(is_whitespace(c), c.is_whitespace(), "{n:x}");
            assert_eq!(to_lower(c), c.to_ascii_lowercase(), "{n:x}");
        }
    }
}

#[test]
fn characters_make_up_a_string() {
    let s = "aß→😀\0";
    assert_eq!(string_of(&chars_of(s)), s);
    assert_eq!(chars_of(s).len(), 5);
    assert_eq!(string_of(&[]), "");
    assert!(same(&chars_of(s), s));
    assert!(!same(&chars_of("ab"), "abc"));
    assert!(!same(&chars_of("abd"), "abc"));
}

#[test]
fn trimming_takes_whitespace_off_both_ends() {
    for s in ["", " ", "a", " a b \r\n", "\u{3000}x\u{a0}", "\u{200b}x\u{200b}", "\t\n"] {
        assert_eq!(string_of(trim(&chars_of(s))), s.trim(), "{s:?}");
    }
}

#[test]
fn lines_end_at_line_feeds() {
    for s in [
        "", "\n", "a", "a\n", "a\r\n", "a\r\r\n", "a\r", "a\n\nb", "\r\n\r\n", "x\ry\nz", "a\n\r",
    ] {
        let expected: Vec<String> = s.lines().map(String::from).collect();
        assert_eq!(all_lines(s), expected, "{s:?}");
    }
}

#[test]
fn words_stand_between_whitespace() {
    for s in ["", "  ", "GET / HTTP/1.1", " a  b", "a", "\u{3000}a\u{2003}b c"] {
        let chars = chars_of(s);
        let (first, rest) = next_word(&chars);
        let (second, _) = next_word(rest);
        let mut words = s.split_whitespace();
        assert_eq!(string_of(first), words.next().unwrap_or(""), "{s:?}");
        assert_eq!(string_of(second), words.next().unwrap_or(""), "{s:?}");
    }
}

#[test]
fn splitting_is_at_the_first_occurrence() {
    let chars = chars_of("a=b=c");
    assert_eq!(find(&chars, '='), 1);
    assert_eq!(find(&chars, '?'), 5);
    let (a, b) = split_once(&chars, '=').unwrap();
    assert_eq!((string_of(a), string_of(b)), ("a".to_string(), "b=c".to_string()));
    assert!(split_once(&chars, '?').is_none());
}

#[test]
fn prefixes_are_matched_without_ascii_case() {
    assert!(starts_with_lowered(&chars_of("X-Ksu-Token: 1"), "x-ksu-token:"));
    assert!(!starts_with_lowered(&chars_of("X-Ksu-Toke"), "x-ksu-token:"));
    assert!(!starts_with_lowered(&chars_of("X-Ksu-Token 1"), "x-ksu-token:"));
    // A Kelvin sign is no ASCII capital.
    assert!(!starts_with_lowered(&chars_of("X-\u{212a}su-Token:"), "x-ksu-token:"));
}

#[test]
fn numbers_are_written_in_decimal() {
    for n in [0, 7, 10, 8389, 65535, u32::MAX as u64, u64::MAX] {
        assert_eq!(decimal(n), n.to_string());
    }
    for n in [0, -1, 42, -42, i64::MIN, i64::MAX] {
        let mut s = String::from("n=");
        push_signed_decimal(&mut s, n);
        assert_eq!(s, format!("n={n}"));
    }
}

#[test]
fn numbers_are_read_as_unsigned_integers_are() {
    for s in [
        "", "+", "-", "0", "+0", "-0", "007", "++1", "1 ", " 1", "1a", "65535", "65536",
        "4294967295", "4294967296", "18446744073709551615", "18446744073709551616",
        "000000000000000000000000000000012", "99999999999999999999x", "\u{0661}",
    ] {
        let chars = chars_of(s);
        assert_eq!(parse_number(&chars, u16::MAX as u64), s.parse::<u16>().ok().map(u64::from), "{s:?}");
        assert_eq!(parse_number(&chars, u32::MAX as u64), s.parse::<u32>().ok().map(u64::from), "{s:?}");
        assert_eq!(parse_number(&chars, u64::MAX), s.parse::<u64>().ok(), "{s:?}");
    }
}

#[test]
fn a_written_number_is_read_back() {
    for n in [0, 1, 9, 10, 99, 100, 12345678901234567890, u64::MAX] {
        assert_eq!(parse_number(&chars_of(&decimal(n)), u64::MAX), Some(n));
    }
    assert_eq!(parse_number(&chars_of(&decimal(256)), 255), None);
}

#[test]
fn bytes_are_written_in_hexadecimal() {
    assert_eq!(to_hex(&[0x00, 0x0f, 0xa5, 0xff]), "000fa5ff");
    assert_eq!(to_hex(&[]), "");
}

#[test]
fn the_first_pair_of_a_name_counts() {
    assert_eq!(get_query_param("token=a&token=b", "token"), Some("a".to_string()));
    assert_eq!(get_query_param("id=1&value=2", "value"), Some("2".to_string()));
    assert_eq!(get_query_param("id=1&value=2", "token"), None);
    assert_eq!(get_query_param("", "token"), None);
}

#[test]
fn a_pair_without_a_value_is_passed_over() {
    assert_eq!(get_query_param("token&token=a", "token"), Some("a".to_string()));
    assert_eq!(get_query_param("token", "token"), None);
    assert_eq!(get_query_param("token=", "token"), Some(String::new()));
    assert_eq!(get_query_param("&&token=a=b&", "token"), Some("a=b".to_string()));
    assert_eq!(get_query_param("=x", ""), Some("x".to_string()));
    assert_eq!(get_query_param("token=%41", "token"), Some("%41".to_string()));
}

#[test]
fn quotes_and_backslashes_are_escaped() {
    assert_eq!(escape_json("a\"b\\c"), "a\\\"b\\\\c");
    assert_eq!(escape_json("line\nfeed"), "line\nfeed");
    for s in ["", "\\", "\"", "\\\"", "\\\\\"\"", "版本"] {
        assert_eq!(escape_json(s), s.replace('\\', "\\\\").replace('"', "\\\""));
    }
}

#[test]
fn parts_are_searched_and_escaped_in_turn() {
    for (a, b) in [("id=1", "token=x"), ("token=y", "token=x"), ("", "a&token=z"), ("k=\"", "\\")] {
        let both = get_query_param(&format!("{a}&{b}"), "token");
        assert_eq!(both, get_query_param(a, "token").or(get_query_param(b, "token")));
        assert_eq!(escape_json(&format!("{a}{b}")), escape_json(a) + &escape_json(b));
    }
}
