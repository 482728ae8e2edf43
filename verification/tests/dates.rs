use life_tracking::Date;

fn day(year: i32, month: u32, day: u32) -> Date {
    Date::from_ymd(year, month, day).expect("valid date")
}

#[test]
fn days_are_numbered_from_the_first_year_on() {
    assert_eq!(day(1, 1, 1).number(), 1);
    assert_eq!(day(1, 1, 2).number(), 2);
    assert_eq!(day(2, 1, 1).number(), 366);
    assert_eq!(day(2026, 3, 2).number(), 739_677);
    assert_eq!(Date::from_number(739_677), Some(day(2026, 3, 2)));
}

#[test]
fn days_that_no_calendar_has_are_refused() {
    assert!(Date::from_ymd(2026, 2, 29).is_none());
    assert!(Date::from_ymd(2024, 2, 29).is_some());
    assert!(Date::from_ymd(1900, 2, 29).is_none());
    assert!(Date::from_ymd(2000, 2, 29).is_some());
    assert!(Date::from_ymd(2026, 13, 1).is_none());
    assert!(Date::from_ymd(2026, 4, 31).is_none());
    assert!(Date::from_ymd(2026, 0, 1).is_none());
    assert!(Date::from_ymd(300_000, 1, 1).is_none());
}

#[test]
fn the_calendar_has_a_first_and_a_last_day() {
    let first = day(-262_143, 1, 1);
    let last = day(262_142, 12, 31);
    assert_eq!(first.number(), -95_746_129);
    assert_eq!(last.number(), 95_745_399);
    assert!(Date::from_number(-95_746_130).is_none());
    assert!(Date::from_number(95_745_400).is_none());
    assert!(last.plus_days(1).is_none());
    assert!(first.plus_days(-1).is_none());
    assert_eq!(last.plus_days(0), Some(last));
}

#[test]
fn days_are_added_across_months() {
    assert_eq!(day(2026, 2, 27).plus_days(2), Some(day(2026, 3, 1)));
    assert_eq!(day(2024, 2, 28).plus_days(1), Some(day(2024, 2, 29)));
    assert_eq!(day(2026, 1, 1).plus_days(-1), Some(day(2025, 12, 31)));
}

#[test]
fn days_are_written_with_leading_zeros() {
    assert_eq!(day(2026, 3, 2).to_text(), "2026-03-02");
    assert_eq!(day(12, 11, 10).to_text(), "0012-11-10");
    assert_eq!(day(0, 1, 1).to_text(), "0000-01-01");
    assert_eq!(day(-1, 1, 1).to_text(), "-0001-01-01");
    assert_eq!(day(12_345, 6, 7).to_text(), "+12345-06-07");
}

#[test]
fn written_days_are_read_back() {
    for date in [
        day(2026, 3, 2),
        day(0, 1, 1),
        day(-1, 1, 1),
        day(9_999, 12, 31),
        day(12_345, 6, 7),
        day(-262_143, 1, 1),
        day(262_142, 12, 31),
    ] {
        assert_eq!(Date::parse(&date.to_text()), Some(date));
    }
}

#[test]
fn other_texts_are_read_or_refused() {
    assert_eq!(Date::parse("2026-3-2"), Some(day(2026, 3, 2)));
    assert_eq!(Date::parse("2026-02-29"), None);
    assert_eq!(Date::parse("2026-03-02 "), None);
    assert_eq!(Date::parse("02.03.2026"), None);
    assert_eq!(Date::parse(""), None);
}

#[test]
fn days_are_told_apart() {
    let monday = day(2026, 3, 2);
    let next = day(2026, 3, 3);
    assert!(monday.is_before(&next));
    assert!(!next.is_before(&monday));
    assert!(!monday.is_before(&monday));
    assert!(monday.same_day(&day(2026, 3, 2)));
    assert!(!monday.same_day(&next));
    assert!(!monday.lies_back(7, &day(2026, 3, 9)));
    assert!(monday.lies_back(7, &day(2026, 3, 10)));
    assert!(!day(262_142, 12, 31).lies_back(7, &monday));
}

#[test]
fn days_are_read_with_spaces_and_signs() {
    for text in [
        " 2026- 3-\t2",
        "+2026-03-02",
        "+000002026-3-02",
        "\u{3000}2026-03-02",
    ] {
        assert_eq!(Date::parse(text), Some(day(2026, 3, 2)), "{}", text);
    }
    assert_eq!(Date::parse("-1-1-1"), Some(day(-1, 1, 1)));
    assert_eq!(Date::parse("-0-1-1"), Some(day(0, 1, 1)));
    assert_eq!(Date::parse("7-1-1"), Some(day(7, 1, 1)));
    for text in [
        "abc",
        "2026",
        "2026-3",
        "2026-3-",
        "02026-3-2",
        "2026-003-2",
        "2026-3-002",
        "2026 -3-2",
        "+ 2026-3-2",
        "--1-1-1",
        "2026-0-1",
        "2026-13-1",
        "2026-4-31",
        "+262143-1-1",
        "+99999999999999999999-1-1",
        "\u{661}-1-1",
    ] {
        assert_eq!(Date::parse(text), None, "{}", text);
    }
}
