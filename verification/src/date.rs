//! Calendar dates.

use chrono::{Datelike, Duration, NaiveDate};
use vstd::prelude::*;

use crate::text::{decimal, decimal_value, digits_value, is_digit, is_white_space, trimmed};

verus! {

/// The day number of the first date there is, January 1 of the year -262143.
pub const MIN_DAY: i32 = -95_746_129;

/// The day number of the last date there is, December 31 of the year 262142.
pub const MAX_DAY: i32 = 95_745_399;

pub open spec fn is_leap_year(year: int) -> bool {
    year % 4 == 0 && (year % 100 != 0 || year % 400 == 0)
}

pub open spec fn days_in_month(year: int, month: int) -> int {
    if month == 2 {
        if is_leap_year(year) {
            29
        } else {
            28
        }
    } else if month == 4 || month == 6 || month == 9 || month == 11 {
        30
    } else {
        31
    }
}

/// The days of the year that lie before the given month.
pub open spec fn days_before_month(year: int, month: int) -> int
    decreases month,
{
    if month <= 1 {
        0
    } else {
        days_before_month(year, month - 1) + days_in_month(year, month - 1)
    }
}

/// There is such a day in the calendar.
pub open spec fn is_calendar_day(year: int, month: int, day: int) -> bool {
    &&& -262143 <= year <= 262142
    &&& 1 <= month <= 12
    &&& 1 <= day <= days_in_month(year, month)
}

/// The number of a day in the proleptic Gregorian calendar; January 1 of the year 1 is day 1.
pub open spec fn day_number(year: int, month: int, day: int) -> int {
    let y = year - 1;
    365 * y + y / 4 - y / 100 + y / 400 + days_before_month(year, month) + day
}

/// `n` in decimal digits, filled up with zeros in front to `width` digits.
pub open spec fn zero_padded(n: nat, width: nat) -> Seq<char> {
    let digits = decimal(n);
    if digits.len() < width {
        Seq::new((width - digits.len()) as nat, |i: int| '0') + digits
    } else {
        digits
    }
}

/// A year as dates are written: four digits, and a sign where it is not one of 0 to 9999.
pub open spec fn year_text(year: int) -> Seq<char> {
    if 0 <= year <= 9999 {
        zero_padded(year as nat, 4)
    } else if year < 0 {
        seq!['-'] + zero_padded((-year) as nat, 4)
    } else {
        seq!['+'] + zero_padded(year as nat, 4)
    }
}

/// A date as `YYYY-MM-DD`.
pub open spec fn ymd_text(year: int, month: int, day: int) -> Seq<char> {
    year_text(year) + seq!['-'] + zero_padded(month as nat, 2) + seq!['-'] + zero_padded(
        day as nat,
        2,
    )
}

/// The year, month and day of the day with the given number.
pub open spec fn calendar_day(number: int) -> (int, int, int) {
    choose|ymd: (int, int, int)|
        is_calendar_day(ymd.0, ymd.1, ymd.2) && #[trigger] day_number(ymd.0, ymd.1, ymd.2)
            == number
}

/// The day with the given number, as `YYYY-MM-DD`.
pub open spec fn day_text(number: int) -> Seq<char> {
    let (year, month, day) = calendar_day(number);
    ymd_text(year, month, day)
}

/// How many digits `s` begins with, `max` at most.
pub open spec fn leading_digits(s: Seq<char>, max: nat) -> nat
    decreases s.len(),
{
    if max > 0 && s.len() > 0 && is_digit(s[0]) {
        1 + leading_digits(s.drop_first(), (max - 1) as nat)
    } else {
        0
    }
}

/// The number that `s` begins with, in one to `max` digits, and what follows.
pub open spec fn read_number(s: Seq<char>, max: nat) -> Option<(int, Seq<char>)> {
    let n = leading_digits(s, max) as int;
    if n == 0 {
        None
    } else {
        Some((digits_value(s.take(n)) as int, s.skip(n)))
    }
}

/// `s` without the white space at its front.
pub open spec fn without_lead(s: Seq<char>) -> Seq<char>
    decreases s.len(),
{
    if s.len() > 0 && is_white_space(s[0]) {
        without_lead(s.drop_first())
    } else {
        s
    }
}

/// The year that `s` begins with, and what follows: a sign and any number of digits, or up to four
/// digits; there may be white space before it.
pub open spec fn read_year(s: Seq<char>) -> Option<(int, Seq<char>)> {
    let t = without_lead(s);
    if t.len() > 0 && t[0] == '-' {
        match read_number(t.drop_first(), t.len()) {
            Some((n, rest)) => Some((-n, rest)),
            None => None,
        }
    } else if t.len() > 0 && t[0] == '+' {
        read_number(t.drop_first(), t.len())
    } else {
        read_number(t, 4)
    }
}

/// The month or the day that `s` begins with, and what follows: `-` and one or two digits; there may
/// be white space before these.
pub open spec fn read_part(s: Seq<char>) -> Option<(int, Seq<char>)> {
    if s.len() > 0 && s[0] == '-' {
        read_number(without_lead(s.drop_first()), 2)
    } else {
        None
    }
}

/// The year, month and day that a text consists of.
pub open spec fn read_ymd(s: Seq<char>) -> Option<(int, int, int)> {
    match read_year(s) {
        Some((year, after_year)) => match read_part(after_year) {
            Some((month, after_month)) => match read_part(after_month) {
                Some((day, rest)) => if rest.len() == 0 {
                    Some((year, month, day))
                } else {
                    None
                },
                None => None,
            },
            None => None,
        },
        None => None,
    }
}

/// The number of the day that a text names: a year, a month and a day that the calendar has.
pub open spec fn parsed_day(s: Seq<char>) -> Option<int> {
    match read_ymd(s) {
        Some((year, month, day)) => if is_calendar_day(year, month, day) {
            Some(day_number(year, month, day))
        } else {
            None
        },
        None => None,
    }
}

/// The days that lie before the given year, counted from the start of the year 1.
pub open spec fn days_before_year(year: int) -> int {
    let y = year - 1;
    365 * y + y / 4 - y / 100 + y / 400
}

proof fn quotient_step(n: int, k: int)
    requires
        0 < k,
    ensures
        n / k - (n - 1) / k == (if n % k == 0 {
            1int
        } else {
            0
        }),
{
    let q = n / k;
    let r = n % k;
    assert(n == k * q + r && 0 <= r < k) by {
        vstd::arithmetic::div_mod::lemma_fundamental_div_mod(n, k);
        vstd::arithmetic::div_mod::lemma_mod_bound(n, k);
    }
    if r == 0 {
        assert(n - 1 == k * (q - 1) + (k - 1)) by (nonlinear_arith)
            requires
                n == k * q,
        ;
        vstd::arithmetic::div_mod::lemma_fundamental_div_mod_converse(n - 1, k, q - 1, k - 1);
    } else {
        vstd::arithmetic::div_mod::lemma_fundamental_div_mod_converse(n - 1, k, q, r - 1);
    }
}

proof fn year_length(year: int)
    ensures
        days_before_year(year + 1) == days_before_year(year) + 365 + (if is_leap_year(year) {
            1int
        } else {
            0
        }),
{
    quotient_step(year, 4);
    quotient_step(year, 100);
    quotient_step(year, 400);
    assert(year % 400 == 0 ==> year % 100 == 0) by {
        assert(year == 400 * (year / 400) + year % 400);
    }
    assert(year % 100 == 0 ==> year % 4 == 0) by {
        assert(year == 100 * (year / 100) + year % 100);
    }
}

proof fn years_grow(a: int, b: int)
    requires
        a <= b,
    ensures
        days_before_year(a) + 365 * (b - a) <= days_before_year(b),
    decreases b - a,
{
    if a < b {
        year_length(a);
        years_grow(a + 1, b);
    }
}

proof fn months_sum(year: int)
    ensures
        days_before_month(year, 13) == 365 + (if is_leap_year(year) {
            1int
        } else {
            0
        }),
{
    reveal_with_fuel(days_before_month, 13);
}

proof fn months_grow(year: int, a: int, b: int)
    requires
        1 <= a < b,
    ensures
        days_before_month(year, a) + days_in_month(year, a) <= days_before_month(year, b),
        0 <= days_before_month(year, a),
    decreases b - a,
{
    assert(days_before_month(year, a + 1) == days_before_month(year, a) + days_in_month(year, a));
    months_nonnegative(year, a);
    if a + 1 < b {
        months_grow(year, a + 1, b);
    }
}

proof fn months_nonnegative(year: int, month: int)
    ensures
        0 <= days_before_month(year, month),
    decreases month,
{
    if month > 1 {
        months_nonnegative(year, month - 1);
    }
}

proof fn day_of_year(year: int, month: int, day: int)
    requires
        is_calendar_day(year, month, day),
    ensures
        days_before_year(year) < day_number(year, month, day) <= days_before_year(year + 1),
{
    months_nonnegative(year, month);
    months_grow(year, month, 13);
    months_sum(year);
    year_length(year);
}

/// The number of a day of the calendar lies between those of the first and the last date.
pub proof fn day_number_in_range(year: int, month: int, day: int)
    requires
        is_calendar_day(year, month, day),
    ensures
        MIN_DAY <= day_number(year, month, day) <= MAX_DAY,
{
    day_of_year(year, month, day);
    years_grow(-262143, year);
    years_grow(year + 1, 262143);
}

/// Later days have greater numbers, and no two days share one.
pub proof fn day_number_is_increasing(a: (int, int, int), b: (int, int, int))
    requires
        is_calendar_day(a.0, a.1, a.2),
        is_calendar_day(b.0, b.1, b.2),
    ensures
        day_number(a.0, a.1, a.2) < day_number(b.0, b.1, b.2) <==> a.0 < b.0 || (a.0 == b.0 && (a.1
            < b.1 || (a.1 == b.1 && a.2 < b.2))),
        day_number(a.0, a.1, a.2) == day_number(b.0, b.1, b.2) <==> a == b,
{
    day_of_year(a.0, a.1, a.2);
    day_of_year(b.0, b.1, b.2);
    if a.0 < b.0 {
        years_grow(a.0 + 1, b.0);
    } else if b.0 < a.0 {
        years_grow(b.0 + 1, a.0);
    } else {
        if a.1 < b.1 {
            months_grow(a.0, a.1, b.1);
        } else if b.1 < a.1 {
            months_grow(a.0, b.1, a.1);
        }
    }
}

/// Days are numbered one after another, from the first day of the year 1 on: each is one above the day
/// before it, in its month, in the month before, or in the year before.
pub proof fn days_follow_one_another(year: int, month: int, day: int)
    requires
        1 <= month <= 12,
    ensures
        day_number(1, 1, 1) == 1,
        day_number(year, month, day + 1) == day_number(year, month, day) + 1,
        month < 12 ==> day_number(year, month + 1, 1) == day_number(
            year,
            month,
            days_in_month(year, month),
        ) + 1,
        day_number(year + 1, 1, 1) == day_number(year, 12, 31) + 1,
        days_in_month(year, 2) == (if year % 400 == 0 || (year % 4 == 0 && year % 100 != 0) {
            29int
        } else {
            28
        }),
{
    year_length(year);
    months_sum(year);
    assert(days_before_month(year, 13) == days_before_month(year, 12) + 31);
    assert(day_number(year, 12, 31) == days_before_year(year) + days_before_month(year, 12) + 31);
    assert(day_number(year + 1, 1, 1) == days_before_year(year + 1) + 1);
    assert(year % 400 == 0 ==> year % 4 == 0) by {
        assert(year == 400 * (year / 400) + year % 400);
    }
}

/// The text of a day is its year, month and day.
pub proof fn day_text_of(year: int, month: int, day: int)
    requires
        is_calendar_day(year, month, day),
    ensures
        calendar_day(day_number(year, month, day)) == (year, month, day),
        day_text(day_number(year, month, day)) == ymd_text(year, month, day),
{
    let n = day_number(year, month, day);
    let ymd = (year, month, day);
    assert(is_calendar_day(ymd.0, ymd.1, ymd.2) && day_number(ymd.0, ymd.1, ymd.2) == n);
    day_number_is_increasing(calendar_day(n), ymd);
}

proof fn zeros_add_nothing(digits: Seq<char>, zeros: nat)
    requires
        digits.len() > 0,
    ensures
        digits_value(Seq::new(zeros, |i: int| '0') + digits) == digits_value(digits),
    decreases digits.len(),
{
    let s = Seq::new(zeros, |i: int| '0') + digits;
    if digits.len() == 1 {
        assert(s.drop_last() == Seq::new(zeros, |i: int| '0'));
        zeros_are_zero(zeros);
        assert(digits.drop_last() == Seq::<char>::empty());
        assert(digits_value(Seq::<char>::empty()) == 0);
    } else {
        assert(s.drop_last() == Seq::new(zeros, |i: int| '0') + digits.drop_last());
        zeros_add_nothing(digits.drop_last(), zeros);
    }
}

proof fn zeros_are_zero(zeros: nat)
    ensures
        digits_value(Seq::new(zeros, |i: int| '0')) == 0,
    decreases zeros,
{
    let s = Seq::new(zeros, |i: int| '0');
    if zeros > 0 {
        assert(s.drop_last() == Seq::new((zeros - 1) as nat, |i: int| '0'));
        zeros_are_zero((zeros - 1) as nat);
    }
}

proof fn zero_padded_value(n: nat, width: nat)
    ensures
        digits_value(zero_padded(n, width)) == n,
        forall|i: int|
            0 <= i < zero_padded(n, width).len() ==> is_digit(#[trigger] zero_padded(n, width)[i]),
        zero_padded(n, width).len() >= width,
        zero_padded(n, width).len() > 0,
{
    decimal_value(n);
    let digits = decimal(n);
    if digits.len() < width {
        zeros_add_nothing(digits, (width - digits.len()) as nat);
        assert forall|i: int| 0 <= i < zero_padded(n, width).len() implies is_digit(
            #[trigger] zero_padded(n, width)[i],
        ) by {
            if i >= width - digits.len() {
                assert(is_digit(digits[i - (width - digits.len())]));
            }
        }
    }
}

proof fn two_digits(n: nat)
    requires
        n < 100,
    ensures
        zero_padded(n, 2).len() == 2,
        digits_value(zero_padded(n, 2)) == n,
{
    zero_padded_value(n, 2);
    reveal_with_fuel(decimal, 2);
}

proof fn year_text_is_unique(a: int, b: int)
    requires
        year_text(a) == year_text(b),
    ensures
        a == b,
{
    zero_padded_value(vstd::math::abs(a), 4);
    zero_padded_value(vstd::math::abs(b), 4);
    let x = zero_padded(vstd::math::abs(a), 4);
    let y = zero_padded(vstd::math::abs(b), 4);
    assert(is_digit(x[0]) && is_digit(y[0]));
    assert(year_text(a)[0] == year_text(b)[0]);
    if a < 0 || a > 9999 {
        assert(year_text(a).drop_first() == x);
        assert(b < 0 || b > 9999);
        assert(year_text(b).drop_first() == y);
        assert(a < 0 <==> year_text(a)[0] == '-');
        assert(b < 0 <==> year_text(b)[0] == '-');
        assert(digits_value(x) == digits_value(y));
    } else {
        assert(0 <= b <= 9999);
        assert(x == year_text(a) && y == year_text(b));
    }
}

/// The text of a day neither begins nor ends with white space.
pub proof fn ymd_text_ends(year: int, month: int, day: int)
    requires
        is_calendar_day(year, month, day),
    ensures
        trimmed(ymd_text(year, month, day)) == ymd_text(year, month, day),
{
    let s = ymd_text(year, month, day);
    let digits = zero_padded(vstd::math::abs(year), 4);
    zero_padded_value(vstd::math::abs(year), 4);
    zero_padded_value(day as nat, 2);
    two_digits(day as nat);
    let last = zero_padded(day as nat, 2);
    assert(is_digit(digits[0]));
    assert(is_digit(last[1]));
    assert(s.first() == year_text(year)[0]);
    assert(s.last() == last[1]);
}

/// No two days have the same text.
pub proof fn ymd_text_is_unique(a: (int, int, int), b: (int, int, int))
    requires
        is_calendar_day(a.0, a.1, a.2),
        is_calendar_day(b.0, b.1, b.2),
        ymd_text(a.0, a.1, a.2) == ymd_text(b.0, b.1, b.2),
    ensures
        a == b,
{
    let s = ymd_text(a.0, a.1, a.2);
    let n = s.len() as int;
    two_digits(a.1 as nat);
    two_digits(a.2 as nat);
    two_digits(b.1 as nat);
    two_digits(b.2 as nat);
    assert(s.subrange(n - 2, n) == zero_padded(a.2 as nat, 2));
    assert(s.subrange(n - 2, n) == zero_padded(b.2 as nat, 2));
    assert(s.subrange(n - 5, n - 3) == zero_padded(a.1 as nat, 2));
    assert(s.subrange(n - 5, n - 3) == zero_padded(b.1 as nat, 2));
    assert(s.subrange(0, n - 6) == year_text(a.0));
    assert(s.subrange(0, n - 6) == year_text(b.0));
    year_text_is_unique(a.0, b.0);
}

proof fn digits_are_counted(digits: Seq<char>, rest: Seq<char>, max: nat)
    requires
        forall|i: int| 0 <= i < digits.len() ==> is_digit(#[trigger] digits[i]),
        digits.len() <= max,
        rest.len() == 0 || !is_digit(rest[0]),
    ensures
        leading_digits(digits + rest, max) == digits.len(),
    decreases digits.len(),
{
    let s = digits + rest;
    if digits.len() > 0 {
        assert(is_digit(digits[0]));
        assert(s.drop_first() == digits.drop_first() + rest);
        digits_are_counted(digits.drop_first(), rest, (max - 1) as nat);
    } else {
        assert(s == rest);
    }
}

proof fn number_is_read(n: nat, width: nat, rest: Seq<char>, max: nat)
    requires
        zero_padded(n, width).len() <= max,
        rest.len() == 0 || !is_digit(rest[0]),
    ensures
        read_number(zero_padded(n, width) + rest, max) == Some((n as int, rest)),
        without_lead(zero_padded(n, width) + rest) == zero_padded(n, width) + rest,
        is_digit((zero_padded(n, width) + rest)[0]),
{
    let digits = zero_padded(n, width);
    let s = digits + rest;
    zero_padded_value(n, width);
    digits_are_counted(digits, rest, max);
    assert(s.take(digits.len() as int) == digits);
    assert(s.skip(digits.len() as int) == rest);
    assert(is_digit(digits[0]) && s[0] == digits[0]);
}

proof fn year_is_read(year: int, rest: Seq<char>)
    requires
        rest.len() > 0 && rest[0] == '-',
    ensures
        read_year(year_text(year) + rest) == Some((year, rest)),
{
    let n = vstd::math::abs(year);
    let digits = zero_padded(n, 4);
    let s = year_text(year) + rest;
    if 0 <= year <= 9999 {
        zero_padded_value(n, 4);
        reveal_with_fuel(decimal, 5);
        assert(digits.len() == 4);
        number_is_read(n, 4, rest, 4);
    } else {
        assert(s.drop_first() == digits + rest);
        number_is_read(n, 4, rest, s.len());
        assert(without_lead(s) == s);
    }
}

proof fn part_is_read(n: nat, rest: Seq<char>)
    requires
        n < 100,
        rest.len() == 0 || !is_digit(rest[0]),
    ensures
        read_part(seq!['-'] + zero_padded(n, 2) + rest) == Some((n as int, rest)),
{
    let s = seq!['-'] + zero_padded(n, 2) + rest;
    two_digits(n);
    number_is_read(n, 2, rest, 2);
    assert(s.drop_first() == zero_padded(n, 2) + rest);
}

/// Reading back the text of a day gives that day.
pub proof fn day_text_reads_back(year: int, month: int, day: int)
    requires
        is_calendar_day(year, month, day),
    ensures
        parsed_day(day_text(day_number(year, month, day))) == Some(day_number(year, month, day)),
{
    day_text_of(year, month, day);
    let s = ymd_text(year, month, day);
    let end = Seq::<char>::empty();
    let after_month = seq!['-'] + zero_padded(day as nat, 2) + end;
    let after_year = seq!['-'] + zero_padded(month as nat, 2) + after_month;
    assert(s == year_text(year) + after_year);
    year_is_read(year, after_year);
    part_is_read(month as nat, after_month);
    part_is_read(day as nat, end);
}

/// A text without a digit names no day.
pub proof fn days_are_named_by_digits(s: Seq<char>)
    requires
        forall|i: int| 0 <= i < s.len() ==> !is_digit(#[trigger] s[i]),
    ensures
        parsed_day(s) is None,
{
    let t = without_lead(s);
    lead_is_cut_off(s);
    if t.len() > 0 {
        assert(!is_digit(t[0]));
        if t.len() > 1 {
            assert(t.drop_first()[0] == t[1]);
        }
    }
}

proof fn lead_is_cut_off(s: Seq<char>)
    requires
        forall|i: int| 0 <= i < s.len() ==> !is_digit(#[trigger] s[i]),
    ensures
        forall|i: int| 0 <= i < without_lead(s).len() ==> !is_digit(#[trigger] without_lead(s)[i]),
    decreases s.len(),
{
    if s.len() > 0 && is_white_space(s[0]) {
        assert forall|i: int| 0 <= i < s.drop_first().len() implies !is_digit(
            #[trigger] s.drop_first()[i],
        ) by {
            assert(!is_digit(s[i + 1]));
        }
        lead_is_cut_off(s.drop_first());
        assert(without_lead(s) == without_lead(s.drop_first()));
    } else {
        assert(without_lead(s) == s);
    }
}

/// A date.
#[derive(Clone, Copy, Debug, PartialEq, Eq, Structural, Hash)]
pub struct Date {
    days: i32,
}

impl View for Date {
    type V = int;

    /// The number of the day; see [`day_number`].
    closed spec fn view(&self) -> int {
        self.days as int
    }
}

/// `NaiveDate::from_ymd_opt` and `num_days_from_ce`: the number of the given day of the calendar,
/// where the calendar has that day.
#[verifier::external_body]
fn number_of_ymd(year: i32, month: u32, day: u32) -> (res: Option<i32>)
    ensures
        match res {
            Some(n) => is_calendar_day(year as int, month as int, day as int) && n == day_number(
                year as int,
                month as int,
                day as int,
            ),
            None => !is_calendar_day(year as int, month as int, day as int),
        },
{
    NaiveDate::from_ymd_opt(year, month, day).map(|date| date.num_days_from_ce())
}

/// `NaiveDate::checked_add_signed`: the number of the day that lies `days` days after the day with
/// the given number, where there is such a date.
#[verifier::external_body]
fn number_plus_days(number: i32, days: i32) -> (res: Option<i32>)
    requires
        MIN_DAY <= number <= MAX_DAY,
    ensures
        res == (if MIN_DAY <= number + days <= MAX_DAY {
            Some((number + days) as i32)
        } else {
            None
        }),
{
    let date = NaiveDate::from_num_days_from_ce_opt(number)?;
    date.checked_add_signed(Duration::days(i64::from(days))).map(|sum| sum.num_days_from_ce())
}

/// The `Display` of `NaiveDate`: the day with the given number, as `YYYY-MM-DD`.
#[verifier::external_body]
fn text_of_number(number: i32) -> (res: String)
    requires
        MIN_DAY <= number <= MAX_DAY,
    ensures
        res@ == day_text(number as int),
{
    NaiveDate::from_num_days_from_ce_opt(number).unwrap().to_string()
}

/// `NaiveDate::parse_from_str` with the format `%Y-%m-%d`: the number of the day that the text
/// names, if it names one. The text is a year, `-`, a month, `-`, a day and nothing more, with white
/// space allowed before each of the three numbers; the year has up to four digits, or a sign and any
/// number of them, the month and the day have one or two; and the calendar has that day.
#[verifier::external_body]
fn number_of_text(s: &str) -> (res: Option<i32>)
    ensures
        match res {
            Some(n) => parsed_day(s@) == Some(n as int),
            None => parsed_day(s@) is None,
        },
{
    NaiveDate::parse_from_str(s, "%Y-%m-%d").ok().map(|date| date.num_days_from_ce())
}

impl Date {
    #[verifier::type_invariant]
    spec fn in_range(self) -> bool {
        MIN_DAY <= self.days <= MAX_DAY
    }

    /// The date with the given day number, if there is one.
    pub fn from_number(number: i32) -> (res: Option<Date>)
        ensures
            match res {
                Some(date) => date@ == number && MIN_DAY <= number <= MAX_DAY,
                None => number < MIN_DAY || MAX_DAY < number,
            },
    {
        if MIN_DAY <= number && number <= MAX_DAY {
            Some(Date { days: number })
        } else {
            None
        }
    }

    /// The date with the given year, month and day, if there is one.
    pub fn from_ymd(year: i32, month: u32, day: u32) -> (res: Option<Date>)
        ensures
            match res {
                Some(date) => is_calendar_day(year as int, month as int, day as int) && date@
                    == day_number(year as int, month as int, day as int),
                None => !is_calendar_day(year as int, month as int, day as int),
            },
    {
        match number_of_ymd(year, month, day) {
            Some(number) => {
                proof {
                    day_number_in_range(year as int, month as int, day as int);
                }
                Some(Date { days: number })
            },
            None => None,
        }
    }

    /// The date that a text of the form `YYYY-MM-DD` names, if it names one.
    pub fn parse(s: &str) -> (res: Option<Date>)
        ensures
            match res {
                Some(date) => parsed_day(s@) == Some(date@),
                None => parsed_day(s@) is None,
            },
    {
        match number_of_text(s) {
            Some(number) => {
                proof {
                    let (year, month, day) = read_ymd(s@).unwrap();
                    day_number_in_range(year, month, day);
                }
                Some(Date { days: number })
            },
            None => None,
        }
    }

    /// The number of the day.
    pub fn number(&self) -> (res: i32)
        ensures
            res == self@,
            MIN_DAY <= res <= MAX_DAY,
    {
        proof {
            use_type_invariant(self);
        }
        self.days
    }

    /// The date `days` days later, if there is one.
    pub fn plus_days(&self, days: i32) -> (res: Option<Date>)
        ensures
            match res {
                Some(date) => date@ == self@ + days && MIN_DAY <= date@ <= MAX_DAY,
                None => self@ + days < MIN_DAY || MAX_DAY < self@ + days,
            },
            MIN_DAY <= self@ <= MAX_DAY,
    {
        proof {
            use_type_invariant(self);
        }
        match number_plus_days(self.days, days) {
            Some(number) => Some(Date { days: number }),
            None => None,
        }
    }

    /// Tells whether this day lies before another.
    pub fn is_before(&self, other: &Date) -> (res: bool)
        ensures
            res == (self@ < other@),
    {
        self.days < other.days
    }

    /// Tells whether this day lies more than the given number of days before `today`.
    pub fn lies_back(&self, days: u8, today: &Date) -> (res: bool)
        ensures
            res == (today@ > self@ + days),
    {
        proof {
            use_type_invariant(self);
            use_type_invariant(today);
        }
        match self.plus_days(days as i32) {
            Some(limit) => limit.is_before(today),
            None => false,
        }
    }

    /// Tells whether this is the same day as another.
    pub fn same_day(&self, other: &Date) -> (res: bool)
        ensures
            res == (self@ == other@),
    {
        self.days == other.days
    }

    /// The date as `YYYY-MM-DD`.
    pub fn to_text(&self) -> (res: String)
        ensures
            res@ == day_text(self@),
    {
        proof {
            use_type_invariant(self);
        }
        text_of_number(self.days)
    }
}

} // verus!
