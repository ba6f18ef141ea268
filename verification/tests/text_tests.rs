use mozheng_board::text::limit_string;

#[test]
fn short_strings_pass_through() {
    let s = "Short title".to_string();
    assert_eq!(limit_string(&s, 16, 13, "..."), "Short title");
}

#[test]
fn string_at_the_limit_passes_through() {
    let s = "abcdefghijklmnop".to_string();
    assert_eq!(s.len(), 16);
    assert_eq!(limit_string(&s, 16, 13, "..."), s);
}

#[test]
fn long_ascii_string_is_cut_with_dots() {
    let s = "abcdefghijklmnopqrstu".to_string();
    assert_eq!(limit_string(&s, 16, 13, "..."), "abcdefghijklm...");
}

#[test]
fn long_string_is_cut_with_ellipsis() {
    let s = "abcdefghijklmnopqrstuvwxyz".to_string();
    assert_eq!(limit_string(&s, 24, 22, "\u{2026}"), "abcdefghijklmnopqrstuv\u{2026}");
}

#[test]
fn cut_inside_a_character_yields_replacement() {
    // Twelve ASCII bytes, then a three-byte euro sign: a thirteen-byte
    // prefix ends one byte into the euro sign.
    let s = "abcdefghijkl\u{20ac}xyzw".to_string();
    assert!(s.len() > 16);
    assert_eq!(limit_string(&s, 16, 13, "..."), "abcdefghijkl\u{fffd}...");
}
