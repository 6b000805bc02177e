use prek_python::paths::{program_file, EnvPath};
use prek_python::text::{
    chars_of, contains, decimal_text, ends_with, is_white_space, joined, parse_u64, same, split,
    split_whitespace, starts_with, strip_prefix, trim, trim_end_matches,
};

#[test]
fn prefixes_and_suffixes_are_compared_by_character() {
    assert_eq!(strip_prefix("äbc", "ä"), Some("bc".to_string()));
    assert_eq!(strip_prefix("abc", "abc"), Some(String::new()));
    assert_eq!(strip_prefix("abc", "abcd"), None);
    assert_eq!(strip_prefix("abc", "b"), None);
    assert!(starts_with("/x", "/"));
    assert!(!starts_with("", "/"));
    assert!(ends_with("abc", "bc"));
    assert!(ends_with("abc", ""));
    assert!(!ends_with("abc", "ab"));
    assert!(!ends_with("c", "bc"));
    assert!(same("ab", "ab"));
    assert!(!same("ab", "ba"));
    assert_eq!(joined("a", "b"), "ab");
    assert_eq!(chars_of("aß").len(), 2);
}

#[test]
fn texts_are_searched_from_the_start() {
    assert!(contains("aab", "ab"));
    assert!(contains("ab", ""));
    assert!(contains("", ""));
    assert!(!contains("ab", "ba"));
    assert!(!contains("a", "ab"));
    assert!(contains("xx needle", "needle"));
}

#[test]
fn white_space_is_that_of_unicode() {
    for code in 0..0x11_0000u32 {
        if let Some(c) = char::from_u32(code) {
            assert_eq!(is_white_space(c), c.is_whitespace(), "{code:x}");
        }
    }
}

#[test]
fn white_space_is_trimmed_at_the_ends() {
    for text in ["", " ", " a b\t", "\u{2003}a\u{85}", "a", "\r\n"] {
        assert_eq!(trim(text), text.trim());
        let words: Vec<&str> = text.split_whitespace().collect();
        assert_eq!(split_whitespace(text), words);
    }
    assert_eq!(split_whitespace(" uv  0.1 x "), vec!["uv", "0.1", "x"]);
    for text in ["", "/", "a//", "a/b", "//a"] {
        assert_eq!(trim_end_matches(text, '/'), text.trim_end_matches('/'));
    }
}

#[test]
fn pieces_lie_between_separators() {
    for text in ["", ".", "a", "a.b", ".a..b."] {
        let pieces: Vec<&str> = text.split('.').collect();
        assert_eq!(split(text, '.'), pieces);
    }
}

#[test]
fn numbers_are_read_and_written_in_decimal() {
    for text in [
        "", "0", "00", "+", "+7", "-7", "12", "1_0", " 1", "18446744073709551615",
        "18446744073709551616", "99999999999999999999", "٣",
    ] {
        assert_eq!(parse_u64(text), text.parse::<u64>().ok(), "{text}");
    }
    for number in [0, 9, 10, 19, 100, 1234567890, u64::MAX] {
        assert_eq!(decimal_text(number), number.to_string());
        assert_eq!(parse_u64(&decimal_text(number)), Some(number));
    }
}

#[test]
fn names_are_joined_to_a_base() {
    let path = EnvPath::new("/a").join("b").join("c");
    assert_eq!(path.base, "/a");
    assert_eq!(path.names, vec!["b".to_string(), "c".to_string()]);
    assert_eq!(path.copy(), path);
    assert_eq!(program_file("uv", "exe"), "uv.exe");
    assert_eq!(program_file("uv", ""), "uv");
}
