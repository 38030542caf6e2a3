use spotuify::text::{
    contains_text, i64_text, join_texts, padded_text, parse_unsigned, same_ignoring_case,
    split_text, to_lowered, trim_text, u64_text, white_space, words_of,
};

#[test]
fn white_space_is_that_of_the_standard_library() {
    for n in 0..=0x10FFFFu32 {
        if let Some(c) = char::from_u32(n) {
            assert_eq!(white_space(c), c.is_whitespace(), "U+{n:04X}");
        }
    }
}

#[test]
fn texts_are_taken_apart_as_the_standard_library_does() {
    for s in ["", " ", "a", " a\u{3000}b ", "a,,b,", ",", "\u{85}x\u{2028}", "ÄÖ ü"] {
        assert_eq!(trim_text(s), s.trim());
        assert_eq!(words_of(s), s.split_whitespace().collect::<Vec<_>>());
        assert_eq!(split_text(s, ','), s.split(',').collect::<Vec<_>>());
        assert_eq!(to_lowered(s), s.to_ascii_lowercase());
        for t in ["", "a", ",b", "äö Ü"] {
            assert_eq!(contains_text(s, t), s.contains(t));
            assert_eq!(same_ignoring_case(s, t), s.eq_ignore_ascii_case(t));
        }
    }
    assert_eq!(
        join_texts(&["a".to_string(), String::new(), "b".to_string()], ", "),
        "a, , b"
    );
}

#[test]
fn numbers_are_written_and_read() {
    for n in [0, 7, 10, 99, 100, 12_345, u64::MAX] {
        assert_eq!(u64_text(n), n.to_string());
    }
    for n in [0, -1, 5, i64::MIN, i64::MAX] {
        assert_eq!(i64_text(n), n.to_string());
    }
    assert_eq!(padded_text(7, 2), "07");
    assert_eq!(padded_text(1999, 2), "1999");
    assert_eq!(parse_unsigned("0042", 100), Some(42));
    assert_eq!(parse_unsigned("", 100), None);
    assert_eq!(parse_unsigned("4x", 100), None);
    assert_eq!(parse_unsigned("+4", 100), None);
    assert_eq!(parse_unsigned("101", 100), None);
}
