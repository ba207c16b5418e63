use storybuilder::text::{chars_of, is_space, same_text, trim_bounds};

#[test]
fn chars_of_keeps_every_character_in_order() {
    assert_eq!(chars_of(""), Vec::<char>::new());
    assert_eq!(chars_of("a;b"), vec!['a', ';', 'b']);
    assert_eq!(chars_of("h\u{e9}\u{3000}!"), vec!['h', '\u{e9}', '\u{3000}', '!']);
}

#[test]
fn is_space_agrees_with_unicode_white_space() {
    for code in 0u32..=0x11_0000 {
        if let Some(c) = char::from_u32(code) {
            assert_eq!(is_space(c), c.is_whitespace(), "U+{:04X}", code);
        }
    }
}

#[test]
fn trim_bounds_agree_with_trim() {
    let cases = [
        "", " ", "   ", "a", " a", "a ", "  a b  ", "\t\r\nauth=x\u{a0}", "\u{2003}x\u{3000}",
        "no-space",
    ];
    for text in cases {
        let chars: Vec<char> = text.chars().collect();
        let (begin, end) = trim_bounds(&chars, 0, chars.len());
        let got: String = chars[begin..end].iter().collect();
        assert_eq!(got, text.trim(), "{:?}", text);
    }
}

#[test]
fn trim_bounds_stay_inside_the_part() {
    let chars: Vec<char> = "ab ; cd ;ef".chars().collect();
    assert_eq!(trim_bounds(&chars, 4, 8), (5, 7));
    assert_eq!(trim_bounds(&chars, 0, 3), (0, 2));
    assert_eq!(trim_bounds(&chars, 2, 3), (3, 3));
    assert_eq!(trim_bounds(&chars, 9, 11), (9, 11));
    assert_eq!(trim_bounds(&chars, 11, 11), (11, 11));
}

#[test]
fn same_text_is_equality() {
    assert!(same_text("", ""));
    assert!(same_text("secret", "secret"));
    assert!(same_text("h\u{e9}llo", "h\u{e9}llo"));
    assert!(!same_text("secret", "secreT"));
    assert!(!same_text("secret", "secret "));
    assert!(!same_text("secret", ""));
    assert!(!same_text("", "s"));
    assert!(!same_text("abc", "abd"));
    assert!(!same_text("xbc", "abc"));
    assert!(!same_text("\u{e9}", "\u{e8}"));
}
