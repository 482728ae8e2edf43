//! Colors written as `#RRGGBB`.

use vstd::prelude::*;

use crate::text::{
    ascii_upper, chars_of, is_white_space, string_of, to_ascii_upper, trim, trimmed, trimmed_is_trimmed,
};

verus! {

/// `s` without white space around it, with a `#` in front, and with the letters `a` to `z` in upper
/// case.
pub open spec fn normalized_color(s: Seq<char>) -> Seq<char> {
    let t = trimmed(s);
    if t.len() > 0 && t[0] == '#' {
        ascii_upper(t)
    } else {
        ascii_upper(seq!['#'] + t)
    }
}

pub open spec fn is_hex_digit(c: char) -> bool {
    ('0' <= c && c <= '9') || ('A' <= c && c <= 'F') || ('a' <= c && c <= 'f')
}

/// The value of a hexadecimal digit.
pub open spec fn hex_value(c: char) -> int {
    if c <= '9' {
        c as u32 - '0' as u32
    } else if c <= 'F' {
        c as u32 - 'A' as u32 + 10
    } else {
        c as u32 - 'a' as u32 + 10
    }
}

/// The number that two hexadecimal digits stand for.
pub open spec fn hex_pair(high: char, low: char) -> int {
    16 * hex_value(high) + hex_value(low)
}

/// `s` is a `#` and six hexadecimal digits.
pub open spec fn is_color(s: Seq<char>) -> bool {
    &&& s.len() == 7
    &&& s[0] == '#'
    &&& forall|i: int| 1 <= i < 7 ==> is_hex_digit(#[trigger] s[i])
}

/// The red, green and blue of the color that `s` names, if it names one.
pub open spec fn parsed_color(s: Seq<char>) -> Option<(int, int, int)> {
    let c = normalized_color(s);
    if is_color(c) {
        Some((hex_pair(c[1], c[2]), hex_pair(c[3], c[4]), hex_pair(c[5], c[6])))
    } else {
        None
    }
}

/// The color text in its one form: no white space around it, a `#` in front, letters in upper case.
pub fn normalize_hex_color(input: &str) -> (res: String)
    ensures
        res@ == normalized_color(input@),
{
    let cleaned = trim(input);
    let mut chars = chars_of(cleaned.as_str());
    if chars.len() == 0 || chars[0] != '#' {
        chars.insert(0, '#');
        assert(chars@ == seq!['#'] + trimmed(input@));
    }
    string_of(&to_ascii_upper(&chars))
}

/// Tells whether a character is a hexadecimal digit.
pub fn is_ascii_hexdigit(c: char) -> (res: bool)
    ensures
        res == is_hex_digit(c),
{
    ('0' <= c && c <= '9') || ('A' <= c && c <= 'F') || ('a' <= c && c <= 'f')
}

fn hex_digit(c: char) -> (res: u8)
    requires
        is_hex_digit(c),
    ensures
        res == hex_value(c),
        res < 16,
{
    if c <= '9' {
        c as u8 - 48
    } else if c <= 'F' {
        c as u8 - 65 + 10
    } else {
        c as u8 - 97 + 10
    }
}

fn hex_byte(high: char, low: char) -> (res: u8)
    requires
        is_hex_digit(high),
        is_hex_digit(low),
    ensures
        res == hex_pair(high, low),
{
    hex_digit(high) * 16 + hex_digit(low)
}

/// The red, green and blue of the color that a text names, if it names one.
pub fn parse_hex_color(input: &str) -> (res: Option<(u8, u8, u8)>)
    ensures
        match res {
            Some((r, g, b)) => parsed_color(input@) == Some((r as int, g as int, b as int)),
            None => parsed_color(input@) is None,
        },
{
    let normalized = normalize_hex_color(input);
    let chars = chars_of(normalized.as_str());
    if chars.len() != 7 || chars[0] != '#' {
        return None;
    }
    let mut i: usize = 1;
    while i < 7
        invariant
            1 <= i <= 7,
            chars@.len() == 7,
            chars@ == normalized_color(input@),
            forall|j: int| 1 <= j < i ==> is_hex_digit(#[trigger] chars@[j]),
        decreases 7 - i,
    {
        if !is_ascii_hexdigit(chars[i]) {
            return None;
        }
        i += 1;
    }
    assert(is_color(chars@));
    assert(is_hex_digit(chars@[1]) && is_hex_digit(chars@[2]) && is_hex_digit(chars@[3])
        && is_hex_digit(chars@[4]) && is_hex_digit(chars@[5]) && is_hex_digit(chars@[6]));
    Some(
        (
            hex_byte(chars[1], chars[2]),
            hex_byte(chars[3], chars[4]),
            hex_byte(chars[5], chars[6]),
        ),
    )
}

proof fn upper_keeps_white_space(s: Seq<char>)
    ensures
        trimmed(ascii_upper(s)) == ascii_upper(trimmed(s)),
    decreases s.len(),
{
    let u = ascii_upper(s);
    if s.len() > 0 && is_white_space(s.first()) {
        assert(u.drop_first() == ascii_upper(s.drop_first()));
        upper_keeps_white_space(s.drop_first());
    } else if s.len() > 0 && is_white_space(s.last()) {
        assert(u.drop_last() == ascii_upper(s.drop_last()));
        upper_keeps_white_space(s.drop_last());
    }
}

/// A color text in its one form stays as it is, and names the color that it named before.
pub proof fn normalized_color_is_stable(s: Seq<char>)
    ensures
        normalized_color(normalized_color(s)) == normalized_color(s),
        parsed_color(normalized_color(s)) == parsed_color(s),
{
    let t = trimmed(s);
    trimmed_is_trimmed(s);
    let c = normalized_color(s);
    let inner = if t.len() > 0 && t[0] == '#' {
        t
    } else {
        seq!['#'] + t
    };
    assert(c == ascii_upper(inner));
    assert(inner.len() > 0 && inner[0] == '#');
    assert(!is_white_space(inner.last()));
    assert(trimmed(inner) == inner);
    upper_keeps_white_space(inner);
    assert(ascii_upper(c) == c);
}

} // verus!
