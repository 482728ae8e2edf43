use life_tracking::input::{KeyCode, LineInput};
use life_tracking::text::{
    contains, eq_ignore_ascii_case, parse_number, same_text, to_decimal, to_signed_decimal, trim,
};
use life_tracking::items::find_query;
use life_tracking::numbers::{do_numbers_fit, largest, with_own_numbers};

#[test]
fn white_space_is_trimmed() {
    assert_eq!(trim("\u{3000} a b\u{2009}\n"), "a b");
    assert_eq!(trim(" \u{85}\u{a0}"), "");
    assert_eq!(trim("\u{200b}x"), "\u{200b}x");
}

#[test]
fn numbers_are_written_and_read() {
    assert_eq!(to_decimal(0), "0");
    assert_eq!(to_decimal(u64::MAX), "18446744073709551615");
    assert_eq!(to_signed_decimal(-70), "-70");
    assert_eq!(to_signed_decimal(i64::MIN), "-9223372036854775808");
    assert_eq!(parse_number("007", u32::MAX), Some(7));
    assert_eq!(parse_number("+7", u32::MAX), Some(7));
    assert_eq!(parse_number("4294967295", u32::MAX), Some(u32::MAX));
    assert_eq!(parse_number("4294967296", u32::MAX), None);
    assert_eq!(parse_number("256", 255), None);
    assert_eq!(parse_number("255", 255), Some(255));
    assert_eq!(parse_number("", 255), None);
    assert_eq!(parse_number("+", 255), None);
    assert_eq!(parse_number("-1", 255), None);
    assert_eq!(parse_number(" 1", 255), None);
}

#[test]
fn texts_are_compared() {
    assert!(contains("hello", "ell"));
    assert!(contains("hello", ""));
    assert!(!contains("hello", "Ell"));
    assert!(eq_ignore_ascii_case("HeLLo", "hEllO"));
    assert!(!eq_ignore_ascii_case("\u{c4}", "\u{e4}"));
    assert!(same_text("a", "a"));
    assert!(!same_text("a", "ab"));
}

#[test]
fn a_query_stands_in_one_of_the_texts() {
    assert!(find_query("", "", "", "", ""));
    assert!(find_query("x", "axb", "", "", ""));
    assert!(find_query("x", "", "axb", "", ""));
    assert!(find_query("x", "", "", "axb", ""));
    assert!(find_query("2", "", "", "", "2026"));
    assert!(!find_query("x", "a", "b", "c", "d"));
}

#[test]
fn a_line_is_edited_at_its_cursor() {
    let mut line = LineInput::from_text("\u{e4}c");
    line.edit(KeyCode::Left);
    line.insert('b');
    assert_eq!(line.text(), "\u{e4}bc");
    assert_eq!(line.cursor, 2);
    line.edit(KeyCode::Backspace);
    assert_eq!(line.text(), "\u{e4}c");
    line.edit(KeyCode::Delete);
    assert_eq!(line.text(), "\u{e4}");
    line.edit(KeyCode::Delete);
    line.edit(KeyCode::Right);
    assert_eq!((line.text().as_str(), line.cursor), ("\u{e4}", 1));
    line.edit(KeyCode::Home);
    line.edit(KeyCode::Backspace);
    line.edit(KeyCode::Left);
    assert_eq!((line.text().as_str(), line.cursor), ("\u{e4}", 0));
    line.edit(KeyCode::End);
    assert_eq!(line.cursor, 1);
}

#[test]
fn numbers_are_given_above_the_largest() {
    assert_eq!(with_own_numbers(&vec![0, 0, 0]), vec![1, 2, 3]);
    assert_eq!(with_own_numbers(&vec![4, 4, 0, 2, 2]), vec![4, 5, 6, 2, 7]);
    assert_eq!(largest(&vec![3, 9, 1]), 9);
    assert_eq!(largest(&Vec::new()), 0);
    assert!(do_numbers_fit(&vec![u64::MAX - 1]));
    assert!(!do_numbers_fit(&vec![u64::MAX - 1, 0]));
}
