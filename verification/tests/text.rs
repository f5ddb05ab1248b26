use sigan::string_set::{str_equal, str_less};
use sigan::text::{is_whitespace, str_starts_with, string_from_chars, to_ascii_lowercase, trimmed_chars};
use sigan::SiganError;

#[test]
fn white_space_is_unicode_white_space() {
    for c in (0u32..=0x10FFFF).filter_map(char::from_u32) {
        assert_eq!(is_whitespace(c), c.is_whitespace(), "{:?}", c);
    }
}

#[test]
fn trimming_and_case() {
    let t = trimmed_chars("\u{3000} a b\t\n");
    assert_eq!(string_from_chars(&t), "a b");
    assert_eq!(string_from_chars(&trimmed_chars("   ")), "");
    assert_eq!(to_ascii_lowercase("UTF8-Condensed É"), "utf8-condensed É");
    assert!(str_starts_with("abc123", "abc"));
    assert!(!str_starts_with("ab", "abc"));
    assert!(str_starts_with("ab", ""));
}

#[test]
fn strings_compare_as_std_does() {
    let words = ["", "a", "ab", "b", "Z", "é", "z"];
    for x in words {
        for y in words {
            assert_eq!(str_less(x, y), x < y, "{x} {y}");
            assert_eq!(str_equal(x, y), x == y, "{x} {y}");
        }
    }
}

#[test]
fn error_messages() {
    assert_eq!(SiganError::AlreadyStopped.message(), "already stopped");
    assert_eq!(
        SiganError::NotFound("abc".to_string()).message(),
        "No entry found with id abc"
    );
    assert_eq!(
        SiganError::MultipleMatches("a".to_string()).message(),
        "Multiple records found starting with id a"
    );
    assert_eq!(SiganError::MissingExtension.message(), "storage filename must have an extension");
}
