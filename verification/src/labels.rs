//! Pieces of text that the screen is made of.

use vstd::prelude::*;
use vstd::string::*;

use crate::text::{chars_of, string_of_range, trim, trimmed};

verus! {

/// A text without the white space around it, or a word in place of one that holds nothing else.
pub open spec fn shown_text(s: Seq<char>) -> Seq<char> {
    if trimmed(s).len() == 0 {
        "(empty)"@
    } else {
        trimmed(s)
    }
}

/// A text without the white space around it, or a word in place of one that holds nothing else.
pub fn empty_if_blank(value: &str) -> (res: String)
    ensures
        res@ == shown_text(value@),
{
    let text = trim(value);
    if text.as_str().is_empty() {
        "(empty)".to_string()
    } else {
        text
    }
}

/// So many spaces.
pub open spec fn spaces(n: nat) -> Seq<char> {
    Seq::new(n, |i: int| ' ')
}

/// A text with spaces behind it, up to a width.
pub open spec fn padded_right(s: Seq<char>, width: nat) -> Seq<char> {
    if s.len() < width {
        s + spaces((width - s.len()) as nat)
    } else {
        s
    }
}

/// A text with spaces in front of it, up to a width.
pub open spec fn padded_left(s: Seq<char>, width: nat) -> Seq<char> {
    if s.len() < width {
        spaces((width - s.len()) as nat) + s
    } else {
        s
    }
}

/// A text made to fill a column: without the white space around it, filled up with spaces, or cut
/// off with a sign that tells so.
pub open spec fn fitted(s: Seq<char>, width: nat) -> Seq<char> {
    let text = trimmed(s);
    if width == 0 {
        Seq::empty()
    } else if text.len() <= width {
        padded_right(text, width)
    } else {
        text.take(width - 1).push('…')
    }
}

/// However long a text is, it fills its column and no more.
pub proof fn fitted_fills_the_column(s: Seq<char>, width: nat)
    ensures
        fitted(s, width).len() == width,
{
}

fn push_spaces(text: String, count: usize) -> (res: String)
    ensures
        res@ == text@ + spaces(count as nat),
{
    let mut res = text;
    let mut i: usize = 0;
    let ghost before = res@;
    assert(before + spaces(0) == before);
    while i < count
        invariant
            i <= count,
            res@ == before + spaces(i as nat),
        decreases count - i,
    {
        res.push(' ');
        i += 1;
        assert(before + spaces(i as nat) == (before + spaces((i - 1) as nat)).push(' '));
    }
    res
}

/// A text with spaces in front of it, up to a width.
pub fn pad_left(text: &str, width: usize) -> (res: String)
    ensures
        res@ == padded_left(text@, width as nat),
{
    let len: usize = chars_of(text).len();
    if len < width {
        let mut res = push_spaces(String::new(), width - len);
        res.append(text);
        assert(res@ == padded_left(text@, width as nat));
        res
    } else {
        text.to_string()
    }
}

/// A text made to fill a column.
pub fn fit_column(value: &str, width: usize) -> (res: String)
    ensures
        res@ == fitted(value@, width as nat),
{
    if width == 0 {
        return String::new();
    }
    let text = trim(value);
    let chars = chars_of(text.as_str());
    if chars.len() <= width {
        let missing: usize = width - chars.len();
        let res = push_spaces(text, missing);
        assert(res@ == fitted(value@, width as nat));
        return res;
    }
    let mut res = string_of_range(&chars, 0, width - 1);
    assert(chars@.subrange(0, width - 1) == chars@.take(width - 1));
    res.push('…');
    res
}

} // verus!
