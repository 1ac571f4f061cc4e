use clock_rs::report::{display_error, failure_reason};
use clock_rs::text::{
    contains_exec, lines_chars, lowercase_chars, parse_unsigned_exec, single_line_chars,
    split_chars, string_from_chars, to_chars, trim_chars,
};

fn s(v: &[char]) -> String {
    v.iter().collect()
}

fn strings(v: Vec<Vec<char>>) -> Vec<String> {
    v.iter().map(|x| s(x)).collect()
}

#[test]
fn trim_matches_std() {
    for text in ["", "  ", " a b ", "\t\nx\r\n", "\u{3000}wide\u{2009}", "plain", "\u{85}a\u{A0}"] {
        let chars = to_chars(text);
        assert_eq!(s(&trim_chars(&chars)), text.trim(), "{text:?}");
    }
}

#[test]
fn single_line_matches_split_whitespace_join() {
    for text in ["", "   ", "a", " a  b\tc\n", "line one\nline two\r\n\tthree", "\u{2028}x\u{1680}y "] {
        let chars = to_chars(text);
        let expected = text.split_whitespace().collect::<Vec<_>>().join(" ");
        assert_eq!(s(&single_line_chars(&chars)), expected, "{text:?}");
    }
}

#[test]
fn split_matches_std() {
    for text in ["", ":", "a:b", "a::b:", "no sep"] {
        let parts = strings(split_chars(&to_chars(text), ':'));
        let expected: Vec<String> = text.split(':').map(String::from).collect();
        assert_eq!(parts, expected, "{text:?}");
    }
}

#[test]
fn lines_match_std() {
    for text in ["", "\n", "a", "a\n", "a\r\nb", "a\rb\r", "a\n\nb\n", "x\r\n\r\n"] {
        let ls = strings(lines_chars(&to_chars(text)));
        let expected: Vec<String> = text.lines().map(String::from).collect();
        assert_eq!(ls, expected, "{text:?}");
    }
}

#[test]
fn parse_unsigned_matches_std() {
    for text in ["0", "42", "+7", "+", "", "-1", "12a", "4294967295", "4294967296", "00012", "++1", " 1"] {
        let got = parse_unsigned_exec(&to_chars(text), u32::MAX);
        assert_eq!(got, text.parse::<u32>().ok(), "{text:?}");
        let got16 = parse_unsigned_exec(&to_chars(text), 65535);
        assert_eq!(got16.map(|v| v as u16), text.parse::<u16>().ok(), "{text:?}");
    }
    assert_eq!(parse_unsigned_exec(&to_chars("65536"), 65535), None);
}

#[test]
fn lowercase_and_contains() {
    assert_eq!(s(&lowercase_chars(&to_chars("BlackHole 2ch ÄÖ"))), "blackhole 2ch ÄÖ");
    assert!(contains_exec(&to_chars("abcabd"), &to_chars("abd")));
    assert!(!contains_exec(&to_chars("abcab"), &to_chars("abd")));
    assert!(contains_exec(&to_chars("abc"), &to_chars("")));
    assert_eq!(string_from_chars(&['h', 'é']), "hé");
}

#[test]
fn display_error_short_and_long() {
    assert_eq!(display_error("Weather error: ", " timed\n out  "), "Weather error: timed out");
    let long = "x ".repeat(60);
    let line = long.split_whitespace().collect::<Vec<_>>().join(" ");
    assert_eq!(line.chars().count(), 119);
    let expected = format!("P: {}…", line.chars().take(79).collect::<String>());
    let got = display_error("P: ", &long);
    assert_eq!(got, expected);
    assert_eq!(got.chars().count(), 3 + 80);
    let exactly = "y".repeat(80);
    assert_eq!(display_error("P: ", &exactly), format!("P: {exactly}"));
}

#[test]
fn failure_reasons() {
    assert_eq!(failure_reason("ps", " out ", "  err\n", "exit status: 1"), "err");
    assert_eq!(failure_reason("ps", " out ", " \n", "exit status: 1"), "out");
    assert_eq!(
        failure_reason("osascript", "", "", "exit status: 2"),
        "osascript exited with status exit status: 2"
    );
}
