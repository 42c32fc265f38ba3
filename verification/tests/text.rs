use navigator_bootstrap::numbers::{parse_u16, to_decimal};
use navigator_bootstrap::text::{
    chars_of, is_white_space, join_strings, lower_case, split_lines, split_words, string_of,
    trimmed,
};

fn pieces(list: &[Vec<char>]) -> Vec<String> {
    list.iter().map(|piece| string_of(piece)).collect()
}

#[test]
fn white_space_is_what_the_standard_library_says() {
    for code in 0..=0x10ffffu32 {
        if let Some(c) = char::from_u32(code) {
            assert_eq!(is_white_space(c), c.is_whitespace(), "{code:x}");
        }
    }
}

#[test]
fn lines_are_what_the_standard_library_says() {
    for s in [
        "", "\n", "a", "a\n", "a\nb", "a\r\nb\r\n", "\r\n", "a\r", "a\r\r\n", "\n\n", "\u{85}\n x",
    ] {
        let expected: Vec<String> = s.lines().map(str::to_string).collect();
        assert_eq!(pieces(&split_lines(&chars_of(s))), expected, "{s:?}");
    }
}

#[test]
fn words_are_what_the_standard_library_says() {
    for s in ["", " ", "a", " a  b\tc ", "HTTP/1.1 200 OK", "\u{3000}x\u{a0}y\n"] {
        let expected: Vec<String> = s.split_whitespace().map(str::to_string).collect();
        assert_eq!(pieces(&split_words(&chars_of(s))), expected, "{s:?}");
    }
}

#[test]
fn trimming_is_what_the_standard_library_does() {
    for s in ["", "  ", " a b ", "\u{2003}x\r\n", "y"] {
        assert_eq!(string_of(trimmed(&chars_of(s))), s.trim());
        assert_eq!(
            string_of(&lower_case(&chars_of(s))),
            s.to_ascii_lowercase()
        );
    }
    assert_eq!(string_of(&lower_case(&chars_of("HTTPS-Äz"))), "https-Äz");
}

#[test]
fn joining_is_what_the_standard_library_does() {
    let none: Vec<String> = Vec::new();
    assert_eq!(join_strings(&none, ", "), "");
    let one = vec!["a".to_string()];
    assert_eq!(join_strings(&one, ", "), "a");
    let three = vec!["a".to_string(), String::new(), "ü".to_string()];
    assert_eq!(join_strings(&three, ", "), three.join(", "));
}

#[test]
fn numbers_are_written_and_read_in_decimal() {
    for n in [0u32, 7, 10, 99, 443, 8080, 65535, 65536, u32::MAX] {
        assert_eq!(to_decimal(n), n.to_string());
    }
    for n in 0..=u16::MAX {
        assert_eq!(parse_u16(&chars_of(&to_decimal(u32::from(n)))), Some(n));
    }
}

#[test]
fn numbers_are_read_as_the_standard_library_does() {
    for s in [
        "", "0", "+7", "+", "-1", "-0", "++1", "007", "65535", "65536", "0000065535",
        "99999999999999999999", "12a", " 1", "1 ", "\u{661}",
    ] {
        assert_eq!(parse_u16(&chars_of(s)), s.parse::<u16>().ok(), "{s:?}");
    }
}
