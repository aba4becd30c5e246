use c_plane::utils::text::{copy_optional, is_blank, push_decimal, white_space};
use c_plane::utils::time::Timestamp;

#[test]
fn blank_is_empty_or_white_space_only() {
    for text in ["", " ", "   ", "\t", "\r\n", "\u{a0}", "\u{2003} \u{3000}"] {
        assert!(is_blank(text), "{:?}", text);
    }
    for text in ["a", " a ", "\u{200b}", "_", "0"] {
        assert!(!is_blank(text), "{:?}", text);
    }
}

#[test]
fn numbers_are_written_in_decimal() {
    for (n, expected) in [
        (0u64, "0"),
        (7, "7"),
        (10, "10"),
        (1234567890, "1234567890"),
        (u64::MAX, "18446744073709551615"),
    ] {
        let mut text = String::new();
        push_decimal(&mut text, n);
        assert_eq!(text, expected);
    }
    let mut text = "n = ".to_string();
    push_decimal(&mut text, 4096);
    assert_eq!(text, "n = 4096");
}

#[test]
fn optional_texts_are_copied() {
    assert_eq!(copy_optional(&None), None);
    assert_eq!(copy_optional(&Some("x".to_string())), Some("x".to_string()));
}

#[test]
fn a_later_instant_has_more_seconds_or_more_nanoseconds() {
    let early = Timestamp { seconds: 10, nanos: 5 };
    assert!(Timestamp { seconds: 11, nanos: 0 }.is_later_than(&early));
    assert!(Timestamp { seconds: 10, nanos: 6 }.is_later_than(&early));
    assert!(!Timestamp { seconds: 10, nanos: 5 }.is_later_than(&early));
    assert!(!Timestamp { seconds: 9, nanos: 999_999_999 }.is_later_than(&early));
    assert!(Timestamp { seconds: 0, nanos: 0 }.is_later_than(&Timestamp { seconds: -1, nanos: 7 }));
}

#[test]
fn white_space_is_what_the_standard_library_trims() {
    let mut count = 0;
    for code in 0..=0x10ffffu32 {
        if let Some(c) = char::from_u32(code) {
            assert_eq!(white_space(c), c.is_whitespace(), "U+{:04X}", code);
            if white_space(c) {
                count += 1;
                assert!(is_blank(&c.to_string()));
                assert!(is_blank(&format!(" {} ", c)));
            }
        }
    }
    assert_eq!(count, 25);
    for text in ["", " a", "a ", " \u{a0}\t", "\u{feff}", "\u{200b}", "\u{180e}"] {
        assert_eq!(is_blank(text), text.trim().is_empty(), "{:?}", text);
    }
}
