use cterm::text::{
    decimal_text, is_control_char, is_optional_text, is_text_before, is_white_space_char,
    parse_i32, parse_unsigned, same_ignoring_case, same_optional_text, to_ascii_lower, trim_text,
};

fn every_char() -> impl Iterator<Item = char> {
    (0..=0x10ffff_u32).filter_map(char::from_u32)
}

#[test]
fn character_classes_agree_with_the_standard_library() {
    for character in every_char() {
        assert_eq!(is_control_char(character), character.is_control(), "{character:?}");
        assert_eq!(is_white_space_char(character), character.is_whitespace(), "{character:?}");
        assert_eq!(to_ascii_lower(character), character.to_ascii_lowercase(), "{character:?}");
    }
}

#[test]
fn numbers_are_read_as_the_standard_library_reads_them() {
    for text in [
        "", "0", "7", "+7", "-7", "007", "4294967295", "4294967296", "18446744073709551615",
        "18446744073709551616", "1 ", " 1", "+", "-", "a", "1a", "2147483647", "2147483648",
        "-2147483648", "-2147483649", "-0",
    ] {
        assert_eq!(parse_unsigned(text, u64::MAX), text.parse::<u64>().ok(), "{text}");
        assert_eq!(
            parse_unsigned(text, u64::from(u32::MAX)),
            text.parse::<u32>().ok().map(u64::from),
            "{text}"
        );
        assert_eq!(parse_i32(text), text.parse::<i32>().ok(), "{text}");
    }
}

#[test]
fn decimal_texts_are_read_back() {
    for number in [0, 1, 9, 10, 99, 100, 1_234_567_890, u64::MAX] {
        assert_eq!(decimal_text(number), number.to_string());
        assert_eq!(parse_unsigned(&decimal_text(number), u64::MAX), Some(number));
    }
}

#[test]
fn texts_are_trimmed_and_compared() {
    assert_eq!(trim_text(" \t a b\u{3000}"), "a b");
    assert_eq!(trim_text("   "), "");
    assert!(same_ignoring_case("Nord", "nORD"));
    assert!(!same_ignoring_case("\u{c9}", "\u{e9}"));
    assert!(is_text_before("a", "b"));
    assert!(is_text_before("a", "aa"));
    assert!(!is_text_before("b", "a"));
    assert!(!is_text_before("a", "a"));
    assert!(is_optional_text(&Some("a".to_string()), "a"));
    assert!(!is_optional_text(&None, "a"));
    assert!(same_optional_text(&None, &None));
    assert!(!same_optional_text(&None, &Some(String::new())));
}
