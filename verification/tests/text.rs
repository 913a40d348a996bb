use gauntlet::text::{
    bool_text, forward_slashed, join, last_field, pad_left, pad_right, repeat, same, starts_with,
    trim, trimmed_first_line, white_space,
};

#[test]
fn trimming_agrees_with_the_standard_library() {
    for s in [
        "", " ", "a", " a ", "\t\n\r a b \u{b}\u{c}", "\u{85}x\u{a0}", "\u{1680}\u{2000}x\u{200a}\u{2028}",
        "\u{2029}\u{202f}\u{205f}\u{3000}", "\u{200b}x\u{feff}", "é \u{3000}",
    ] {
        assert_eq!(trim(s), s.trim(), "{s:?}");
    }
    for c in (0u32..0x1_1000).filter_map(char::from_u32) {
        assert_eq!(white_space(c), c.is_whitespace(), "{c:?}");
    }
}

#[test]
fn the_first_line_agrees_with_the_standard_library() {
    for s in ["", "a", "a\nb", "a\r\nb", "\n", "\r\n", " a \r\n", "a\rb\nc", "\r", "é\nü"] {
        let expected = s.lines().next().map(|l| l.trim()).unwrap_or("");
        assert_eq!(trimmed_first_line(s), expected, "{s:?}");
    }
}

#[test]
fn the_last_field_agrees_with_the_standard_library() {
    for s in ["", "a", "a\tb", "a\tb\tc", "a\t", "\t", "é\tü"] {
        assert_eq!(last_field(s), s.split('\t').next_back().unwrap_or(s), "{s:?}");
    }
}

#[test]
fn padding_agrees_with_the_standard_library() {
    for s in ["", "a", "abcdef", "a longer text", "éü"] {
        for width in [0usize, 1, 6, 13, 14] {
            assert_eq!(pad_right(s, width), format!("{s:<width$}"));
            assert_eq!(pad_left(s, width), format!("{s:>width$}"));
        }
    }
}

#[test]
fn small_helpers() {
    assert!(same("a", "a") && !same("a", "b") && !same("a", "ab"));
    assert!(starts_with("--dll", "--") && !starts_with("-", "--") && starts_with("x", ""));
    assert_eq!(forward_slashed(r"a\b/c\"), "a/b/c/");
    assert_eq!(repeat("ab", 3), "ababab");
    assert_eq!(repeat("ab", 0), "");
    let v: Vec<String> = ["x", "y", "z"].iter().map(|s| s.to_string()).collect();
    assert_eq!(join(&v, ", "), "x, y, z");
    assert_eq!(join(&vec![], ", "), "");
    assert_eq!((bool_text(true), bool_text(false)), ("true", "false"));
}
