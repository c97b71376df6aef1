use hyprrgn::text::{
    is_white_space, keymap_text, parse_i32, parse_usize, push_decimal, same_text, split_around_x,
    string_of, string_of_char, to_lower, to_upper, trim, trim_nuls,
};

#[test]
fn white_space_is_that_of_unicode() {
    for n in 0..=0x10ffff {
        if let Some(c) = char::from_u32(n) {
            assert_eq!(is_white_space(c), c.is_whitespace(), "{:x}", n);
        }
    }
}

#[test]
fn trims_both_ends() {
    for s in ["", " ", "a", "  a b\t", "\u{2003}x\u{3000}", "\r\n", "esc", "a\u{85}"] {
        assert_eq!(trim(s), s.trim());
    }
}

#[test]
fn ascii_case() {
    for s in ["", "aZ;9[`{@", "\u{e4}\u{c4}xyz", "BackSpace"] {
        assert_eq!(to_lower(s), s.to_ascii_lowercase());
        assert_eq!(to_upper(s), s.to_ascii_uppercase());
    }
}

#[test]
fn compares_text() {
    assert!(same_text("", ""));
    assert!(same_text("esc", "esc"));
    assert!(!same_text("esc", "escape"));
    assert!(!same_text("esc", "Esc"));
}

#[test]
fn builds_strings() {
    assert_eq!(string_of_char('k'), "k");
    assert_eq!(string_of(&vec!['a', 'b', 'c', 'd'], 1, 3), "bc");
}

#[test]
fn parses_i32_like_std() {
    for s in [
        "", "+", "-", "0", "-0", "+0", "007", "12", "+12", "-12", "--1", "+-1", "1 ", " 1", "1x",
        "2147483647", "2147483648", "-2147483648", "-2147483649", "99999999999999999999999999",
        "-99999999999999999999999999", "\u{664}", "1_000",
    ] {
        assert_eq!(parse_i32(s), s.parse::<i32>().ok(), "{}", s);
    }
}

#[test]
fn parses_usize_like_std() {
    for s in [
        "", "+", "-", "0", "-0", "+3", "10", "-1", "18446744073709551615", "18446744073709551616",
        "99999999999999999999999999999999999999999999999999", "3.0",
    ] {
        assert_eq!(parse_usize(s), s.parse::<usize>().ok(), "{}", s);
    }
}

#[test]
fn splits_around_the_only_x() {
    assert_eq!(split_around_x("3x4"), Some(("3".to_string(), "4".to_string())));
    assert_eq!(split_around_x("x"), Some((String::new(), String::new())));
    assert_eq!(split_around_x("3"), None);
    assert_eq!(split_around_x("3x4x5"), None);
    assert_eq!(split_around_x("3X4"), None);
    assert_eq!(split_around_x(""), None);
}

#[test]
fn decimal_notation_is_read_back() {
    for n in [0, 9, 10, 99, 100, -1, -10, 1920, i32::MAX, i32::MIN] {
        let mut s = "n=".to_string();
        push_decimal(&mut s, n);
        assert_eq!(s, format!("n={}", n));
        assert_eq!(parse_i32(&s[2..]), Some(n));
    }
}

#[test]
fn keymap_text_ends_before_nul() {
    assert_eq!(trim_nuls("a\0b\0\0"), "a\0b");
    assert_eq!(trim_nuls("\0\0"), "");
    assert_eq!(keymap_text(&b"xkb_keymap {};\0".to_vec()), "xkb_keymap {};");
    assert_eq!(keymap_text(&vec![0xc3, 0xa4, 0]), "\u{e4}");
    assert_eq!(keymap_text(&vec![b'a', 0xff, b'b', 0, 0]), "a\u{fffd}b");
}
