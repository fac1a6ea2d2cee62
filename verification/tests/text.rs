//! Texts, held against those of the standard library.

use henka::text;

#[test]
fn white_space_is_that_of_the_standard_library() {
    for n in 0..0x11_0000u32 {
        if let Some(c) = char::from_u32(n) {
            assert_eq!(text::white(c), c.is_whitespace(), "{n:x}");
        }
    }
}

#[test]
fn trimming_and_lines() {
    let samples = [
        "", " ", "a", " a ", "\ta\u{a0}b\u{2003}", "a\nb", "a\r\nb\r\n", "\n", "\r", "a\r", "a\n\nb\n", "\r\n\r\n", "a\rb",
    ];
    for s in samples {
        assert_eq!(text::trim(s), s.trim(), "{s:?}");
        assert_eq!(text::blank(s), s.trim().is_empty(), "{s:?}");
        assert_eq!(text::lines(s), s.lines().collect::<Vec<_>>(), "{s:?}");
        assert_eq!(text::is_empty(s), s.is_empty());
        assert_eq!(text::whole_text(&text::chars_of(s)), s);
    }
}

#[test]
fn order_is_that_of_the_standard_library() {
    let samples = ["", "a", "b", "ab", "aB", "\u{e4}", "\u{1f600}", "\u{ffff}", "a\u{0}"];
    for a in samples {
        for b in samples {
            assert_eq!(text::is_before(a, b), a < b, "{a:?} {b:?}");
            assert_eq!(text::same(a, b), a == b);
            assert_eq!(text::cat(a, b), format!("{a}{b}"));
        }
    }
}

#[test]
fn numbers_are_written_in_decimal() {
    for n in [0, 7, 10, 99, 100, 12345678901234567890, u64::MAX] {
        assert_eq!(text::decimal_text(n), n.to_string());
    }
}

#[test]
fn joining_and_cutting() {
    let parts = vec!["a".to_string(), "".to_string(), "b".to_string()];
    assert_eq!(text::join(&parts, ", "), "a, , b");
    assert_eq!(text::join(&vec![], ", "), "");
    let cs = text::chars_of("h\u{e4}llo");
    assert_eq!(text::text_of(&cs, 1, 3), "\u{e4}l");
    assert_eq!(text::find_next(&cs, 'l', 0), 2);
    assert_eq!(text::find_next(&cs, 'l', 4), 5);
    assert_eq!(text::cat3("a", "b", "c"), "abc");
}
