use museum_finder::text::{
    chars_of, found_at, has_substring, push_decimal, trim_bounds, whitespace,
};

#[test]
fn chars_of_gives_each_character() {
    assert_eq!(chars_of("abc"), vec!['a', 'b', 'c']);
    assert_eq!(chars_of("τέχνη").len(), 5);
    assert_eq!(chars_of(""), Vec::<char>::new());
}

#[test]
fn found_at_compares_at_the_offset() {
    let hay = chars_of("museum");
    assert!(found_at(&hay, &chars_of("muse"), 0));
    assert!(found_at(&hay, &chars_of("seum"), 2));
    assert!(!found_at(&hay, &chars_of("seum"), 1));
    assert!(found_at(&hay, &chars_of(""), 6));
    assert!(!found_at(&hay, &chars_of(""), 7));
    assert!(!found_at(&hay, &chars_of("um"), 5));
    assert!(!found_at(&hay, &chars_of("museums"), 0));
    assert!(!found_at(&hay, &chars_of("m"), usize::MAX));
}

#[test]
fn has_substring_finds_a_run_anywhere() {
    let hay = chars_of("http://example.com");
    assert!(has_substring(&hay, &chars_of("http")));
    assert!(has_substring(&hay, &chars_of(".com")));
    assert!(has_substring(&hay, &chars_of("example")));
    assert!(has_substring(&hay, &chars_of("")));
    assert!(has_substring(&hay, &hay));
    assert!(!has_substring(&hay, &chars_of(".de")));
    assert!(!has_substring(&hay, &chars_of("http://example.com/")));
    assert!(!has_substring(&chars_of(""), &chars_of("a")));
    assert!(has_substring(&chars_of(""), &chars_of("")));
}

#[test]
fn whitespace_is_the_unicode_white_space() {
    for c in [' ', '\t', '\n', '\u{b}', '\u{c}', '\r', '\u{85}', '\u{a0}', '\u{1680}', '\u{2000}',
        '\u{200a}', '\u{2028}', '\u{2029}', '\u{202f}', '\u{205f}', '\u{3000}'] {
        assert!(whitespace(c));
    }
    for c in ['a', '0', '\u{8}', '\u{e}', '\u{200b}', '\u{feff}', '\u{180e}', '_'] {
        assert!(!whitespace(c));
    }
}

#[test]
fn whitespace_agrees_with_the_standard_library() {
    let mut code: u32 = 0;
    while code <= 0x10FFFF {
        if let Some(c) = char::from_u32(code) {
            assert_eq!(whitespace(c), c.is_whitespace());
        }
        code += 1;
    }
}

#[test]
fn trim_bounds_strips_both_ends() {
    let text = chars_of("ab \t art \n cd");
    assert_eq!(trim_bounds(&text, 2, 10), (5, 8));
    assert_eq!(trim_bounds(&text, 5, 8), (5, 8));
    assert_eq!(trim_bounds(&text, 2, 4), (4, 4));
    assert_eq!(trim_bounds(&text, 0, 13), (0, 13));
    assert_eq!(trim_bounds(&text, 3, 3), (3, 3));
}

#[test]
fn trim_bounds_agrees_with_the_standard_library() {
    for piece in ["", " ", "art", " art", "art ", "\tart\n", "a b", " \u{a0}x y\u{3000} ", "\n\n"] {
        let chars = chars_of(piece);
        let (start, end) = trim_bounds(&chars, 0, chars.len());
        let trimmed: String = chars[start..end].iter().collect();
        assert_eq!(trimmed, piece.trim());
    }
}

#[test]
fn push_decimal_writes_the_digits() {
    for n in [0usize, 1, 9, 10, 11, 99, 100, 101, 1234567890, usize::MAX] {
        let mut text = String::from("n=");
        push_decimal(&mut text, n);
        assert_eq!(text, format!("n={}", n));
    }
}
