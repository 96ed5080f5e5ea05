use hyde::filters::{ceil_char_boundary, fmt_timestamp, is_utf8_char_boundary, truncate};

#[test]
fn boundary_bytes_are_recognised() {
    assert!(is_utf8_char_boundary(b'a'));
    assert!(is_utf8_char_boundary(0x00));
    assert!(is_utf8_char_boundary(0xC3));
    assert!(!is_utf8_char_boundary(0xA9));
    assert!(!is_utf8_char_boundary(0x80));
}

#[test]
fn ceil_char_boundary_lands_after_a_multibyte_char() {
    // "é" is two bytes: 0xC3 0xA9.
    let bytes = "aébc".as_bytes().to_vec();
    assert_eq!(ceil_char_boundary(&bytes, 0), 0);
    assert_eq!(ceil_char_boundary(&bytes, 1), 1);
    // Index 2 sits inside "é"; the next boundary is at 3.
    assert_eq!(ceil_char_boundary(&bytes, 2), 3);
    assert_eq!(ceil_char_boundary(&bytes, 99), bytes.len());
}

#[test]
fn truncate_appends_dots() {
    let bytes = "hello world".as_bytes().to_vec();
    let out = truncate(&bytes, 5);
    assert_eq!(String::from_utf8(out).unwrap(), "hello...");
}

#[test]
fn truncate_keeps_short_text_whole() {
    let bytes = "hi".as_bytes().to_vec();
    let out = truncate(&bytes, 10);
    assert_eq!(String::from_utf8(out).unwrap(), "hi...");
}

#[test]
fn truncate_never_splits_a_character() {
    let bytes = "aé".as_bytes().to_vec();
    let out = truncate(&bytes, 2);
    assert_eq!(String::from_utf8(out).unwrap(), "aé...");
}

#[test]
fn timestamps_format_under_chrono_patterns() {
    assert_eq!(
        fmt_timestamp("2024-01-02T03:04:05Z", "%Y-%m-%d"),
        "2024-01-02"
    );
    assert_eq!(fmt_timestamp("2024-01-02T03:04:05Z", "%H:%M"), "03:04");
}

#[test]
fn bad_timestamps_render_a_placeholder() {
    assert_eq!(fmt_timestamp("yesterday", "%Y"), "<invalid date>");
}
