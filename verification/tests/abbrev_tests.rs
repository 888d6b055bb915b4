use string_utils::abbrev::{abbreviate, abbreviate_full, abbreviate_with_marker};
use string_utils::error::UtilsError;
use string_utils::string_utils::StringUtilsExt;

#[test]
fn abbreviate_basic_trailing_marker() {
    assert_eq!(abbreviate_full("abcdefg", "...", 0, 6).unwrap(), "abc...");
}

#[test]
fn abbreviate_offset_within_leading_window() {
    assert_eq!(abbreviate_full("abcdefg", "...", 1, 5).unwrap(), "ab...");
}

#[test]
fn abbreviate_empty_input_is_noop() {
    assert_eq!(abbreviate_full("", "...", 0, 10).unwrap(), "");
}

#[test]
fn abbreviate_empty_marker_hard_truncation() {
    assert_eq!(abbreviate_full("abcdefg", "", 0, 4).unwrap(), "abcd");
}

#[test]
fn abbreviate_empty_marker_width_beyond_text() {
    assert_eq!(abbreviate_full("ab", "", 0, 10).unwrap(), "ab");
}

#[test]
fn abbreviate_width_below_minimum_fails() {
    let r = abbreviate_full("abc", "...", 0, 2);
    assert!(matches!(r, Err(UtilsError::InvalidArgument(_))));
}

#[test]
fn abbreviate_double_elision() {
    let r = abbreviate_full("abcdefghijklmnop", "-", 5, 6).unwrap();
    assert_eq!(r, "-fghi-");
    assert!(r.len() <= 6);
    assert!(r.as_str().starts_with('-') && r.as_str().ends_with('-'));
}

#[test]
fn abbreviate_right_anchored_window() {
    // The offset pushes the window to the end of the text.
    assert_eq!(abbreviate_full("abcdefghij", "...", 9, 7).unwrap(), "...ghij");
}

#[test]
fn abbreviate_negative_offset_left_anchored() {
    assert_eq!(abbreviate_full("abcdefg", "...", -3, 6).unwrap(), "abc...");
}

#[test]
fn abbreviate_offset_past_end_clamped() {
    assert_eq!(abbreviate_full("abcdefghij", "...", 100, 7).unwrap(), "...ghij");
}

#[test]
fn abbreviate_text_already_fits() {
    assert_eq!(abbreviate("hello", 10).unwrap(), "hello");
    assert_eq!(abbreviate("hello", 5).unwrap(), "hello");
}

#[test]
fn abbreviate_short_width_fails_even_when_text_fits() {
    // The width check precedes the length check, so a width with no room
    // for the default marker plus one character is rejected.
    let r = abbreviate("ab", 2);
    assert!(matches!(r, Err(UtilsError::InvalidArgument(_))));
}

#[test]
fn abbreviate_default_marker() {
    assert_eq!(abbreviate("abcdefghij", 7).unwrap(), "abcd...");
}

#[test]
fn abbreviate_with_marker_custom() {
    assert_eq!(abbreviate_with_marker("abcdefghij", "..", 6).unwrap(), "abcd..");
}

#[test]
fn abbreviate_idempotent_on_own_output() {
    let once = abbreviate_full("abcdefghijklmnop", "-", 5, 6).unwrap();
    let twice = abbreviate_full(&once, "-", 5, 6).unwrap();
    assert_eq!(once, twice);

    let once = abbreviate("abcdefghij", 7).unwrap();
    let twice = abbreviate(&once, 7).unwrap();
    assert_eq!(once, twice);
}

#[test]
fn abbreviate_result_never_exceeds_width() {
    let cases: Vec<(&str, &str, isize, usize)> = vec![
        ("abcdefghijklmnop", "-", 5, 6),
        ("abcdefghij", "...", 0, 7),
        ("abcdefghij", "...", 9, 7),
        ("abcdefg", "...", 1, 5),
        ("abcdefg", "", 0, 4),
    ];
    for (text, marker, offset, width) in cases {
        let r = abbreviate_full(text, marker, offset, width).unwrap();
        assert!(r.chars().count() <= width);
    }
}

#[test]
fn abbreviate_counts_codepoints_not_bytes() {
    // Seven two-byte codepoints abbreviated to six: three kept, marker added.
    assert_eq!(abbreviate_full("äöüßéèê", "...", 0, 6).unwrap(), "äöü...");
}

#[test]
fn abbreviate_error_carries_message() {
    match abbreviate_full("abc", "...", 0, 2) {
        Err(e) => assert!(!e.message().is_empty()),
        Ok(_) => panic!("expected an error"),
    }
}

#[test]
fn abbreviate_trait_methods_match_free_functions() {
    assert_eq!(
        StringUtilsExt::abbreviate("abcdefghij", 7).unwrap(),
        abbreviate("abcdefghij", 7).unwrap()
    );
    let owned = String::from("abcdefghij");
    assert_eq!(
        StringUtilsExt::abbreviate_with_full_opt(&owned, "..", 0, 6).unwrap(),
        "abcd.."
    );
    assert_eq!(
        StringUtilsExt::abbreviate_with_offset("abcdefghij", 9, 7).unwrap(),
        "...ghij"
    );
}

#[test]
fn abbreviate_middle_shortens_center() {
    assert_eq!(
        StringUtilsExt::abbreviate_middle("abcdefghij", "...", 7).unwrap(),
        "ab...ij"
    );
    assert_eq!(
        StringUtilsExt::abbreviate_middle("abcdef", "...", 6).unwrap(),
        "abcdef"
    );
    assert_eq!(
        StringUtilsExt::abbreviate_middle("abcdefghij", "...", 4).unwrap(),
        "abcdefghij"
    );
}
