use life_tracking::color::{normalize_hex_color, parse_hex_color};

#[test]
fn colors_are_normalized() {
    assert_eq!(normalize_hex_color("  4da3ff "), "#4DA3FF");
    assert_eq!(parse_hex_color("#4da3ff"), Some((0x4D, 0xA3, 0xFF)));
}

#[test]
fn texts_that_name_no_color_are_refused() {
    assert_eq!(parse_hex_color("#12345"), None);
    assert_eq!(parse_hex_color("#1234567"), None);
    assert_eq!(parse_hex_color("#12345G"), None);
    assert_eq!(parse_hex_color(""), None);
    assert_eq!(parse_hex_color("##123456"), None);
    assert_eq!(parse_hex_color("\u{e4}12345"), None);
    assert_eq!(parse_hex_color("000000"), Some((0, 0, 0)));
}

#[test]
fn normalizing_twice_changes_nothing() {
    for text in ["", " #ab ", "4da3ff", "\u{e4}x"] {
        let once = normalize_hex_color(text);
        assert_eq!(normalize_hex_color(&once), once);
        assert_eq!(parse_hex_color(&once), parse_hex_color(text));
    }
}
