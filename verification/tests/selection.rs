use meiqiu_dict::selection::is_acceptable_selection;

#[test]
fn accepts_simple_word() {
    assert!(is_acceptable_selection("hello"));
}

#[test]
fn accepts_hyphenated_and_apostrophe() {
    assert!(is_acceptable_selection("self-aware"));
    assert!(is_acceptable_selection("don't"));
}

#[test]
fn accepts_short_phrase() {
    assert!(is_acceptable_selection("two words"));
}

#[test]
fn trims_whitespace() {
    assert!(is_acceptable_selection("  hello  "));
}

#[test]
fn rejects_empty_and_whitespace() {
    assert!(!is_acceptable_selection(""));
    assert!(!is_acceptable_selection("   "));
}

#[test]
fn rejects_digits_only() {
    assert!(!is_acceptable_selection("12345"));
}

#[test]
fn rejects_control_chars() {
    assert!(!is_acceptable_selection("hello\nworld"));
    assert!(!is_acceptable_selection("hi\tthere"));
}

#[test]
fn rejects_non_ascii() {
    assert!(!is_acceptable_selection("中文"));
    assert!(!is_acceptable_selection("café"));
}

#[test]
fn rejects_too_long() {
    let s: String = "a".repeat(65);
    assert!(!is_acceptable_selection(&s));
}

#[test]
fn rejects_punctuation() {
    assert!(!is_acceptable_selection("hello,"));
    assert!(!is_acceptable_selection("foo."));
}

#[test]
fn accepts_exactly_sixty_four_bytes() {
    let s: String = "a".repeat(64);
    assert!(is_acceptable_selection(&s));
    let padded = format!("  {s}\t");
    assert!(is_acceptable_selection(&padded));
}

#[test]
fn trimming_uses_unicode_whitespace() {
    assert!(is_acceptable_selection("\u{3000}hello\u{a0}"));
    assert!(is_acceptable_selection("\u{2003}word\u{85}"));
}

#[test]
fn rejects_other_control_chars_inside() {
    assert!(!is_acceptable_selection("a\u{7f}b"));
    assert!(!is_acceptable_selection("a\u{9f}b"));
}

#[test]
fn digits_with_a_letter_are_accepted() {
    assert!(is_acceptable_selection("mp3"));
    assert!(is_acceptable_selection("'-' x"));
}
