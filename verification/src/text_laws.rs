//! What the operations on texts do, told character by character.

use vstd::prelude::*;
use vstd::utf8::is_ascii_chars;

use crate::color::{normalized_color, parsed_color};
use crate::input::{KeyCode, LineModel};
use crate::labels::{fitted, padded_left, shown_text};
use crate::text::{
    ascii_lower, ascii_upper, decimal, decimal_value, digits_value, first_occurs_at, has_substring,
    is_digit, is_white_space, lex_less, lower, occurs_at, parsed_number, signed_decimal, trimmed,
    trimmed_is_trimmed, unicode_lower,
};

verus! {

/// All characters are white space.
pub open spec fn is_blank(s: Seq<char>) -> bool {
    forall|i: int| 0 <= i < s.len() ==> is_white_space(#[trigger] s[i])
}

proof fn trimming_splits(s: Seq<char>) -> (parts: (Seq<char>, Seq<char>))
    ensures
        is_blank(parts.0),
        is_blank(parts.1),
        s == parts.0 + trimmed(s) + parts.1,
    decreases s.len(),
{
    let none = Seq::<char>::empty();
    if s.len() > 0 && is_white_space(s.first()) {
        let (a, b) = trimming_splits(s.drop_first());
        let lead = seq![s[0]] + a;
        assert(s == seq![s[0]] + s.drop_first());
        assert(s == lead + trimmed(s) + b);
        (lead, b)
    } else if s.len() > 0 && is_white_space(s.last()) {
        let (a, b) = trimming_splits(s.drop_last());
        let tail = b.push(s.last());
        assert(s == s.drop_last().push(s.last()));
        assert(s == a + trimmed(s) + tail);
        (a, tail)
    } else {
        assert(s == none + s + none);
        (none, none)
    }
}

/// Trimming takes away white space at the two ends, all of it and nothing else.
pub proof fn trimming_takes_white_space_from_the_ends(s: Seq<char>)
    ensures
        exists|lead: Seq<char>, tail: Seq<char>|
            is_blank(lead) && is_blank(tail) && s == #[trigger] (lead + trimmed(s) + tail),
        trimmed(s).len() > 0 ==> !is_white_space(trimmed(s)[0]) && !is_white_space(
            trimmed(s)[trimmed(s).len() - 1],
        ),
        trimmed(s).len() == 0 <==> is_blank(s),
{
    let (lead, tail) = trimming_splits(s);
    assert(s == lead + trimmed(s) + tail);
    trimmed_is_trimmed(s);
    if trimmed(s).len() == 0 {
        assert forall|i: int| 0 <= i < s.len() implies is_white_space(#[trigger] s[i]) by {
            if i < lead.len() {
                assert(is_white_space(lead[i]));
            } else {
                assert(is_white_space(tail[i - lead.len()]));
            }
        }
    } else {
        assert(s[lead.len() as int] == trimmed(s)[0]);
    }
}

/// A text holds another where it is that other with something before and after it, or nothing.
pub proof fn a_text_holds_its_parts(hay: Seq<char>, needle: Seq<char>)
    ensures
        has_substring(hay, needle) <==> exists|a: Seq<char>, b: Seq<char>|
            hay == #[trigger] (a + needle + b),
{
    if has_substring(hay, needle) {
        let i = choose|i: int| occurs_at(hay, needle, i);
        let a = hay.take(i);
        let b = hay.skip(i + needle.len());
        assert(hay == a + needle + b);
    }
    if exists|a: Seq<char>, b: Seq<char>| hay == #[trigger] (a + needle + b) {
        let (a, b) = choose|a: Seq<char>, b: Seq<char>| hay == #[trigger] (a + needle + b);
        assert(hay.subrange(a.len() as int, (a.len() + needle.len()) as int) == needle);
        assert(occurs_at(hay, needle, a.len() as int));
    }
}

/// The first place of a text in another is one where it stands, and none before is.
pub proof fn the_first_place_is_first(hay: Seq<char>, needle: Seq<char>, i: int, j: int)
    requires
        first_occurs_at(hay, needle, i),
    ensures
        0 <= i <= hay.len() - needle.len(),
        hay.subrange(i, i + needle.len()) == needle,
        0 <= j < i ==> hay.subrange(j, j + needle.len()) != needle,
{
    if 0 <= j < i {
        assert(!occurs_at(hay, needle, j));
    }
}

/// Lower case turns each of the letters `A` to `Z` into that of `a` to `z` at the same place of the
/// alphabet and leaves all else, and upper case the other way round. Of ASCII text this is all that
/// lower case does; of other text it is what Unicode says.
pub proof fn case_goes_letter_by_letter(s: Seq<char>, i: int)
    requires
        0 <= i < s.len(),
    ensures
        ascii_lower(s).len() == s.len(),
        ascii_upper(s).len() == s.len(),
        ascii_lower(s)[i] as int == (if 65 <= s[i] as int <= 90 {
            s[i] as int + 32
        } else {
            s[i] as int
        }),
        ascii_upper(s)[i] as int == (if 97 <= s[i] as int <= 122 {
            s[i] as int - 32
        } else {
            s[i] as int
        }),
        is_ascii_chars(s) ==> lower(s) == ascii_lower(s),
        !is_ascii_chars(s) ==> lower(s) == unicode_lower(s),
{
}

/// Lower case of a text without letters `A` to `Z` changes nothing, where it is ASCII text.
pub proof fn lower_case_stays(s: Seq<char>)
    requires
        is_ascii_chars(s),
        forall|i: int| 0 <= i < s.len() ==> !(65 <= (#[trigger] s[i]) as int <= 90),
    ensures
        lower(s) == s,
        ascii_lower(s) == s,
{
    assert(ascii_lower(s) == s) by {
        assert forall|i: int| 0 <= i < s.len() implies ascii_lower(s)[i] == s[i] by {}
    }
}

/// Two texts agree up to a place.
pub open spec fn agree_to(a: Seq<char>, b: Seq<char>, n: int) -> bool {
    forall|i: int| 0 <= i < n ==> #[trigger] a[i] == b[i]
}

/// One text comes before another where, at the first place at which they differ, its character is
/// the lesser or it has ended.
pub open spec fn comes_first_at(a: Seq<char>, b: Seq<char>, n: int) -> bool {
    &&& 0 <= n <= a.len()
    &&& n < b.len()
    &&& agree_to(a, b, n)
    &&& n == a.len() || a[n] < b[n]
}

/// Texts are ordered by their first character that differs, and where there is none, by length.
pub proof fn texts_are_ordered_by_their_characters(a: Seq<char>, b: Seq<char>)
    ensures
        lex_less(a, b) <==> exists|n: int| comes_first_at(a, b, n),
    decreases a.len(),
{
    if b.len() == 0 {
    } else if a.len() == 0 {
        assert(comes_first_at(a, b, 0));
    } else if a[0] != b[0] {
        if a[0] < b[0] {
            assert(comes_first_at(a, b, 0));
        }
        if exists|n: int| comes_first_at(a, b, n) {
            let n = choose|n: int| comes_first_at(a, b, n);
            if n > 0 {
                assert(a[0] == b[0]);
            }
        }
    } else {
        let x = a.drop_first();
        let y = b.drop_first();
        texts_are_ordered_by_their_characters(x, y);
        if exists|n: int| comes_first_at(x, y, n) {
            let n = choose|n: int| comes_first_at(x, y, n);
            assert forall|i: int| 0 <= i < n + 1 implies #[trigger] a[i] == b[i] by {
                if i > 0 {
                    assert(x[i - 1] == y[i - 1]);
                }
            }
            if n < x.len() {
                assert(x[n] == a[n + 1] && y[n] == b[n + 1]);
            }
            assert(comes_first_at(a, b, n + 1));
        }
        if exists|n: int| comes_first_at(a, b, n) {
            let n = choose|n: int| comes_first_at(a, b, n);
            assert(n > 0);
            assert forall|i: int| 0 <= i < n - 1 implies #[trigger] x[i] == y[i] by {
                assert(a[i + 1] == b[i + 1]);
            }
            assert(comes_first_at(x, y, n - 1));
        }
    }
}

/// Digits stand for ten times what those before the last stand for, and the last.
pub proof fn digits_count_in_tens(s: Seq<char>, c: char)
    requires
        48 <= c as int <= 57,
    ensures
        is_digit(c),
        digits_value(Seq::empty()) == 0,
        digits_value(s.push(c)) == 10 * digits_value(s) + (c as int - 48),
{
    assert(s.push(c).drop_last() == s);
}

/// Only `0` to `9` are digits.
pub proof fn ten_characters_are_digits(c: char)
    ensures
        is_digit(c) <==> 48 <= c as int <= 57,
{
}

/// A number is written with the digits that stand for it, and no zero in front of others; below
/// zero, with `-` in front of what is written for its opposite.
pub proof fn numbers_are_written_in_digits(n: nat, k: int)
    ensures
        digits_value(decimal(n)) == n,
        decimal(n).len() >= 1,
        decimal(n).len() > 1 ==> decimal(n)[0] != '0',
        0 <= k < decimal(n).len() ==> is_digit(decimal(n)[k]),
        signed_decimal(n as int) == decimal(n),
        n > 0 ==> signed_decimal(-(n as int)) == seq!['-'] + decimal(n),
    decreases n,
{
    decimal_value(n);
    if n >= 10 {
        numbers_are_written_in_digits(n / 10, 0);
        assert(decimal(n)[0] == decimal(n / 10)[0]);
        if n / 10 < 10 {
            assert(decimal(n / 10).len() == 1);
            assert(decimal(n / 10)[0] as int == 48 + n / 10);
        } else {
            decimal_value(n / 10 / 10);
            assert(decimal(n / 10).len() > 1);
        }
    }
}

/// All characters are digits, and there is one.
pub open spec fn is_number(s: Seq<char>) -> bool {
    s.len() > 0 && forall|i: int| 0 <= i < s.len() ==> is_digit(#[trigger] s[i])
}

/// A text is read as a number where it holds digits and nothing else, but for a `+` in front, and
/// where the number is not above the limit; it is the number that the digits stand for.
pub proof fn numbers_are_read_from_digits(s: Seq<char>, max: nat)
    ensures
        is_number(s) && digits_value(s) <= max ==> parsed_number(s, max) == Some(digits_value(s)),
        is_number(s) && digits_value(s) <= max ==> parsed_number(seq!['+'] + s, max) == Some(
            digits_value(s),
        ),
        is_number(s) && digits_value(s) > max ==> parsed_number(s, max) is None && parsed_number(
            seq!['+'] + s,
            max,
        ) is None,
        !is_number(s) && !(s.len() > 0 && s[0] == '+') ==> parsed_number(s, max) is None,
        !is_number(s) ==> parsed_number(seq!['+'] + s, max) is None,
{
    assert((seq!['+'] + s).drop_first() == s);
    if is_number(s) {
        assert(is_digit(s[0]));
    }
}

/// A column shows a text without the white space around it: all of it with spaces behind, or as
/// much as there is room for with the sign of what is cut off behind.
pub proof fn a_column_shows_the_front_of_a_text(s: Seq<char>, width: nat, i: int)
    requires
        0 <= i < width,
    ensures
        fitted(s, width).len() == width,
        trimmed(s).len() <= width ==> fitted(s, width)[i] == (if i < trimmed(s).len() {
            trimmed(s)[i]
        } else {
            ' '
        }),
        trimmed(s).len() > width ==> fitted(s, width)[i] == (if i < width - 1 {
            trimmed(s)[i]
        } else {
            '…'
        }),
{
}

/// A text that is filled up in front ends with the text, and all before it are spaces.
pub proof fn filling_up_goes_in_front(s: Seq<char>, width: nat, i: int)
    requires
        0 <= i < padded_left(s, width).len(),
    ensures
        padded_left(s, width).len() == (if s.len() < width {
            width
        } else {
            s.len()
        }),
        padded_left(s, width)[i] == (if i < padded_left(s, width).len() - s.len() {
            ' '
        } else {
            s[i - (padded_left(s, width).len() - s.len())]
        }),
{
}

/// A blank text is shown as a word that says so, any other without the white space around it.
pub proof fn blank_texts_are_shown_by_a_word(s: Seq<char>)
    ensures
        is_blank(s) ==> shown_text(s) == "(empty)"@,
        !is_blank(s) ==> shown_text(s) == trimmed(s),
{
    trimming_takes_white_space_from_the_ends(s);
}

/// A hexadecimal digit of the given value, in either case.
pub open spec fn is_hex(c: char, value: int) -> bool {
    ||| 0 <= value <= 9 && c as int == 48 + value
    ||| 10 <= value <= 15 && c as int == 55 + value
    ||| 10 <= value <= 15 && c as int == 87 + value
}

/// A text names a color where, without the white space around it and with or without `#` in front,
/// it is six hexadecimal digits in either case: two each for red, green and blue.
pub proof fn colors_are_six_digits(
    s: Seq<char>,
    a: int,
    b: int,
    c: int,
    d: int,
    e: int,
    f: int,
)
    requires
        s.len() == 6,
        is_hex(s[0], a),
        is_hex(s[1], b),
        is_hex(s[2], c),
        is_hex(s[3], d),
        is_hex(s[4], e),
        is_hex(s[5], f),
    ensures
        parsed_color(s) == Some((16 * a + b, 16 * c + d, 16 * e + f)),
        parsed_color(seq!['#'] + s) == Some((16 * a + b, 16 * c + d, 16 * e + f)),
{
    let t = seq!['#'] + s;
    assert(trimmed(s) == s);
    assert(trimmed(t) == t);
    let n = normalized_color(s);
    assert(n == ascii_upper(t));
    assert(normalized_color(t) == n);
    assert(n.len() == 7);
    assert(n[0] == '#');
    assert(n[1] == crate::text::ascii_upper_char(s[0]));
    assert(n[2] == crate::text::ascii_upper_char(s[1]));
    assert(n[3] == crate::text::ascii_upper_char(s[2]));
    assert(n[4] == crate::text::ascii_upper_char(s[3]));
    assert(n[5] == crate::text::ascii_upper_char(s[4]));
    assert(n[6] == crate::text::ascii_upper_char(s[5]));
}

/// `s` without a `#` in front.
pub open spec fn without_hash(s: Seq<char>) -> Seq<char> {
    if s.len() > 0 && s[0] == '#' {
        s.skip(1)
    } else {
        s
    }
}

/// A text that names a color has, but for white space and one `#`, just six hexadecimal digits.
pub proof fn only_six_digits_are_a_color(s: Seq<char>, i: int)
    requires
        parsed_color(s) is Some,
    ensures
        without_hash(trimmed(s)).len() == 6,
        0 <= i < 6 ==> exists|value: int| is_hex(without_hash(trimmed(s))[i], value),
{
    let t = trimmed(s);
    let n = normalized_color(s);
    let digits = without_hash(t);
    if 0 <= i < 6 {
        assert(crate::color::is_hex_digit(n[i + 1]));
        assert(n[i + 1] == crate::text::ascii_upper_char(digits[i]));
        let c = digits[i] as int;
        let value = if c <= 57 {
            c - 48
        } else if c <= 70 {
            c - 55
        } else {
            c - 87
        };
        assert(is_hex(digits[i], value));
    }
}

/// The one form of a color is its text without the white space around it, letters in upper case,
/// and one `#` in front.
pub proof fn the_one_form_of_a_color(s: Seq<char>)
    ensures
        ({
            let t = trimmed(s);
            normalized_color(s) == (if t.len() > 0 && t[0] == '#' {
                ascii_upper(t)
            } else {
                seq!['#'] + ascii_upper(t)
            })
        }),
{
    let t = trimmed(s);
    assert(ascii_upper(seq!['#'] + t) == seq!['#'] + ascii_upper(t));
}

/// A key that edits a line: typing puts the character at the cursor, erasing takes the one before
/// or behind it, and all before and after stay; the arrows and the keys for the two ends move the
/// cursor by one or to the end and leave the text; other keys do nothing.
pub proof fn a_line_is_edited_at_its_cursor(line: LineModel, code: KeyCode, c: char)
    requires
        0 <= line.cursor <= line.text.len(),
    ensures
        ({
            let front = line.text.take(line.cursor);
            let back = line.text.skip(line.cursor);
            let end = line.text.len() as int;
            &&& line.inserted(c) == (LineModel {
                text: front + seq![c] + back,
                cursor: line.cursor + 1,
            })
            &&& code == KeyCode::Backspace ==> line.edited(code) == (if line.cursor == 0 {
                line
            } else {
                LineModel { text: front.drop_last() + back, cursor: line.cursor - 1 }
            })
            &&& code == KeyCode::Delete ==> line.edited(code) == (if line.cursor == end {
                line
            } else {
                LineModel { text: front + back.drop_first(), cursor: line.cursor }
            })
            &&& code == KeyCode::Left ==> line.edited(code) == (LineModel {
                text: line.text,
                cursor: if line.cursor == 0 {
                    0
                } else {
                    line.cursor - 1
                },
            })
            &&& code == KeyCode::Right ==> line.edited(code) == (LineModel {
                text: line.text,
                cursor: if line.cursor == end {
                    end
                } else {
                    line.cursor + 1
                },
            })
            &&& code == KeyCode::Home ==> line.edited(code) == (LineModel {
                text: line.text,
                cursor: 0,
            })
            &&& code == KeyCode::End ==> line.edited(code) == (LineModel {
                text: line.text,
                cursor: end,
            })
            &&& code is Char || code is Enter || code is Esc || code is Up || code is Down
                || code is Other ==> line.edited(code) == line
            &&& line.moved_end() == (LineModel { text: line.text, cursor: end })
        }),
{
    let front = line.text.take(line.cursor);
    let back = line.text.skip(line.cursor);
    assert(line.text.insert(line.cursor, c) == front + seq![c] + back);
    if line.cursor > 0 {
        assert(line.text.remove(line.cursor - 1) == front.drop_last() + back);
    }
    if line.cursor < line.text.len() {
        assert(line.text.remove(line.cursor) == front + back.drop_first());
    }
}

/// A line that a text is put in holds it, with the cursor behind it.
pub proof fn a_line_holds_its_text(text: Seq<char>)
    ensures
        crate::input::line_of(text) == (LineModel { text, cursor: text.len() as int }),
{
}

} // verus!
