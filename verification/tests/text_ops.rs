use anyn2n::text::{
    chars_of, contains_text, decimal_string, decode_output, find_text, lines_of, parse_u64,
    parse_u8, replace_chars, split_chars, trim_chars, trim_matches_chars, words_of,
};

fn s(v: &[char]) -> String {
    v.iter().collect()
}

fn all(v: &[Vec<char>]) -> Vec<String> {
    v.iter().map(|x| s(x)).collect()
}

#[test]
fn trim_removes_unicode_whitespace() {
    let c = chars_of(" \t\u{3000}abc d\r\n ");
    assert_eq!(s(&trim_chars(&c)), "abc d");
    assert_eq!(s(&trim_chars(&chars_of("   "))), "");
}

#[test]
fn trim_follows_std() {
    for text in ["\u{85}x\u{2028}", "\u{200b}x\u{200b}", "\u{1680} a \u{205f}", "\x0b\x0cz\x0c"] {
        assert_eq!(s(&trim_chars(&chars_of(text))), text.trim(), "text {:?}", text);
    }
}

#[test]
fn split_keeps_empty_pieces() {
    assert_eq!(all(&split_chars(&chars_of("a,b,,c,"), ',')), vec!["a", "b", "", "c", ""]);
    assert_eq!(all(&split_chars(&chars_of(""), ',')), vec![""]);
}

#[test]
fn lines_follow_std() {
    for text in ["a\nb\r\nc", "a\n\nb\n", "\n", "", "x\r", "a\r\r\n"] {
        let expected: Vec<String> = text.lines().map(|l| l.to_string()).collect();
        assert_eq!(all(&lines_of(&chars_of(text))), expected, "text {:?}", text);
    }
}

#[test]
fn words_follow_std() {
    for text in ["  a  bc\td ", "", "   ", "x", "a\u{a0}b"] {
        let expected: Vec<String> = text.split_whitespace().map(|l| l.to_string()).collect();
        assert_eq!(all(&words_of(&chars_of(text))), expected, "text {:?}", text);
    }
}

#[test]
fn find_and_contains() {
    let c = chars_of("created local tap device IP: 10.0.0.1");
    assert_eq!(find_text(&c, &chars_of("IP:")), Some(25));
    assert_eq!(find_text(&c, &chars_of("")), Some(0));
    assert!(!contains_text(&c, &chars_of("Mask")));
}

#[test]
fn numbers_parse_as_std_does() {
    for t in ["0", "+12", "18446744073709551615", "18446744073709551616", "", "+", "-1", "1a", "007"] {
        assert_eq!(parse_u64(&chars_of(t)), t.parse::<u64>().ok(), "text {:?}", t);
        assert_eq!(parse_u8(&chars_of(t)), t.parse::<u8>().ok(), "text {:?}", t);
    }
    assert_eq!(parse_u8(&chars_of("255")), Some(255));
    assert_eq!(parse_u8(&chars_of("256")), None);
}

#[test]
fn decimal_strings() {
    assert_eq!(decimal_string(0), "0");
    assert_eq!(decimal_string(5644), "5644");
    assert_eq!(decimal_string(u64::MAX), u64::MAX.to_string());
}

#[test]
fn replace_and_trim_matches() {
    assert_eq!(s(&replace_chars(&chars_of("00-ff-2a"), '-', ':')), "00:ff:2a");
    assert_eq!(s(&trim_matches_chars(&chars_of("''my net''"), '\'')), "my net");
}

#[test]
fn decode_output_replaces_invalid_bytes() {
    assert_eq!(decode_output(b"10.0.0.1\n"), "10.0.0.1\n");
    assert_eq!(decode_output(&[b'a', 0xff, b'b']), "a\u{fffd}b");
}
