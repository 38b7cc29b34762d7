//! Text, numbers and paths.
use winrestyle::number::{decimal, parse_number};
use winrestyle::paths::{file_name, join, sibling};
use winrestyle::text::{
    contains_part, eq_ignore_case, is_control, matches_lowered, strip_prefix, trim, utf16_lossy,
};

#[test]
fn numbers_are_written_and_read() {
    assert_eq!(decimal(0), "0");
    assert_eq!(decimal(u64::MAX), "18446744073709551615");
    assert_eq!(parse_number("+42", 100), Some(42));
    assert_eq!(parse_number("101", 100), None);
    assert_eq!(parse_number("", 100), None);
    assert_eq!(parse_number("4x", 100), None);
}

#[test]
fn text_is_compared_and_cut() {
    assert!(eq_ignore_case("FoO.EXE", "foo.exe"));
    assert!(!eq_ignore_case("É", "é"));
    assert!(matches_lowered("GÉO", "é"));
    assert!(contains_part("abc", "bc") && !contains_part("abc", "cb"));
    assert_eq!(trim(" \t a b\r\n"), "a b");
    assert_eq!(strip_prefix("--x=1", "--x=").as_deref(), Some("1"));
    assert_eq!(strip_prefix("--y=1", "--x="), None);
    assert!(is_control('\u{7f}') && !is_control('a'));
}

#[test]
fn halves_of_pairs_are_replaced() {
    let units = vec![0x61, 0xd83d, 0xde00, 0xd83d, 0x62, 0xde00];
    assert_eq!(utf16_lossy(&units), "a\u{1f600}\u{fffd}b\u{fffd}");
}

#[test]
fn paths_are_joined_and_split() {
    assert_eq!(join(r"C:\a", "b"), r"C:\a\b");
    assert_eq!(file_name(r"C:\a\b.exe"), "b.exe");
    assert_eq!(
        sibling(r"C:\a\b.exe", "c.exe").as_deref(),
        Some(r"C:\a\c.exe")
    );
    assert_eq!(sibling("", "c.exe"), None);
}
