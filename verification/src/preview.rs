//! The part of a description that a search has found.

use vstd::prelude::*;

use crate::seqs::{
    first_where, first_where_exists, first_where_is, first_where_is_none, is_first_where,
    is_last_where, last_where, last_where_exists, last_where_is, last_where_is_none,
};
use crate::text::{
    ascii_lower, chars_of, find_chars, first_occurs_at, has_substring, is_white_space, occurs_at,
    string_of_range, to_ascii_lower, trim, trimmed, trimmed_is_trimmed,
};

verus! {

/// Where the word that goes on at `i` ends.
pub open spec fn word_end(s: Seq<char>, i: int) -> int
    decreases s.len() - i,
{
    if i >= s.len() || is_white_space(s[i]) {
        i
    } else {
        word_end(s, i + 1)
    }
}

proof fn word_end_bounds(s: Seq<char>, i: int)
    requires
        0 <= i <= s.len(),
    ensures
        i <= word_end(s, i) <= s.len(),
        i < s.len() && !is_white_space(s[i]) ==> i < word_end(s, i),
    decreases s.len() - i,
{
    if i < s.len() && !is_white_space(s[i]) {
        word_end_bounds(s, i + 1);
    }
}

/// The words of a text from `i` on: where each begins and ends.
pub open spec fn words_from(s: Seq<char>, i: int) -> Seq<(usize, usize)>
    decreases s.len() - i,
    when 0 <= i
    via words_from_ends
{
    if i >= s.len() {
        Seq::empty()
    } else if is_white_space(s[i]) {
        words_from(s, i + 1)
    } else {
        seq![(i as usize, word_end(s, i) as usize)] + words_from(s, word_end(s, i))
    }
}

#[via_fn]
proof fn words_from_ends(s: Seq<char>, i: int) {
    if i < s.len() {
        word_end_bounds(s, i);
    }
}

/// The words of a text: where each begins and ends.
pub open spec fn word_ranges(s: Seq<char>) -> Seq<(usize, usize)> {
    words_from(s, 0)
}

/// A word that holds a part of what lies between `from` and `to`.
pub open spec fn touches(from: int, to: int) -> spec_fn((usize, usize)) -> bool {
    |word: (usize, usize)| from < word.1 && to > word.0
}

/// A part of a description: what was found, what stands before and after it, and whether there is
/// more before and after.
#[derive(Debug)]
pub struct DescriptionMatchPreview {
    pub before: String,
    pub matched: String,
    pub after: String,
    pub has_prefix: bool,
    pub has_suffix: bool,
}

#[verifier::ext_equal]
pub struct PreviewModel {
    pub before: Seq<char>,
    pub matched: Seq<char>,
    pub after: Seq<char>,
    pub has_prefix: bool,
    pub has_suffix: bool,
}

impl View for DescriptionMatchPreview {
    type V = PreviewModel;

    open spec fn view(&self) -> PreviewModel {
        PreviewModel {
            before: self.before@,
            matched: self.matched@,
            after: self.after@,
            has_prefix: self.has_prefix,
            has_suffix: self.has_suffix,
        }
    }
}

/// Where a query stands first in a text, the letters `A` to `Z` taken as `a` to `z`.
pub open spec fn found_at(text: Seq<char>, query: Seq<char>) -> Option<int> {
    let hay = ascii_lower(text);
    let needle = ascii_lower(query);
    if has_substring(hay, needle) {
        Some(choose|i: int| first_occurs_at(hay, needle, i))
    } else {
        None
    }
}

/// How many words are shown before and after what was found.
pub const CONTEXT_WORDS: usize = 3;

/// The part of a description around what lies between `from` and `to`: the words that hold it, and
/// three words before and after.
pub open spec fn preview_around(description: Seq<char>, from: int, to: int) -> Option<PreviewModel> {
    let words = word_ranges(description);
    match (first_where(words, touches(from, to)), last_where(words, touches(from, to))) {
        (Some(first), Some(last)) => {
            let start_word = if first < CONTEXT_WORDS {
                0
            } else {
                first - CONTEXT_WORDS
            };
            let end_word = if last + CONTEXT_WORDS > words.len() - 1 {
                words.len() - 1
            } else {
                last + CONTEXT_WORDS
            };
            let start = words[start_word].0 as int;
            let end = words[end_word].1 as int;
            let mark = if from > start {
                from
            } else {
                start
            };
            let mark_end = if to < end {
                to
            } else {
                end
            };
            if mark >= mark_end {
                None
            } else {
                Some(
                    PreviewModel {
                        before: description.subrange(start, mark),
                        matched: description.subrange(mark, mark_end),
                        after: description.subrange(mark_end, end),
                        has_prefix: start_word > 0,
                        has_suffix: end_word + 1 < words.len(),
                    },
                )
            }
        },
        _ => None,
    }
}

/// The part of a description that a search has found.
pub open spec fn preview_of(description: Seq<char>, query: Seq<char>) -> Option<PreviewModel> {
    let needle = trimmed(query);
    if needle.len() == 0 {
        None
    } else {
        match found_at(description, needle) {
            Some(at) => preview_around(description, at, at + needle.len()),
            None => None,
        }
    }
}

/// The words of a text: where each begins and ends.
pub fn word_char_ranges(chars: &Vec<char>) -> (res: Vec<(usize, usize)>)
    ensures
        res@ == word_ranges(chars@),
        forall|k: int| 0 <= k < res@.len() ==> (#[trigger] res@[k]).1 <= chars@.len(),
{
    let ghost all = chars@;
    let mut res: Vec<(usize, usize)> = Vec::new();
    let mut at: usize = 0;
    assert(res@ + words_from(all, 0) == words_from(all, 0));
    while at < chars.len()
        invariant
            all == chars@,
            at <= chars.len(),
            word_ranges(all) == res@ + words_from(all, at as int),
            forall|k: int| 0 <= k < res@.len() ==> (#[trigger] res@[k]).1 <= chars@.len(),
        decreases chars.len() - at,
    {
        if chars[at].is_whitespace() {
            at += 1;
        } else {
            let mut end: usize = at + 1;
            while end < chars.len() && !chars[end].is_whitespace()
                invariant
                    all == chars@,
                    at < end <= chars.len(),
                    word_end(all, at as int) == word_end(all, end as int),
                decreases chars.len() - end,
            {
                end += 1;
            }
            assert(word_end(all, at as int) == end);
            let ghost before = res@;
            res.push((at, end));
            assert(before + (seq![(at, end)] + words_from(all, end as int)) == res@ + words_from(
                all,
                end as int,
            ));
            at = end;
        }
    }
    assert(res@ + words_from(all, at as int) == res@);
    res
}

fn first_touching(words: &Vec<(usize, usize)>, from: usize, to: usize) -> (res: Option<usize>)
    ensures
        match res {
            Some(i) => i < words@.len() && first_where(
                words@,
                touches(from as int, to as int),
            ) == Some(i as int),
            None => first_where(words@, touches(from as int, to as int)) is None,
        },
{
    let ghost p = touches(from as int, to as int);
    let mut i: usize = 0;
    while i < words.len()
        invariant
            i <= words.len(),
            p == touches(from as int, to as int),
            forall|k: int| 0 <= k < i ==> !p(#[trigger] words@[k]),
        decreases words.len() - i,
    {
        let (start, end) = words[i];
        if from < end && to > start {
            proof {
                assert(p(words@[i as int]));
                first_where_is(words@, p, i as int);
            }
            return Some(i);
        }
        assert(!p(words@[i as int]));
        i += 1;
    }
    proof {
        first_where_is_none(words@, p);
    }
    None
}

fn last_touching(words: &Vec<(usize, usize)>, from: usize, to: usize) -> (res: Option<usize>)
    ensures
        match res {
            Some(i) => i < words@.len() && last_where(words@, touches(from as int, to as int))
                == Some(i as int),
            None => last_where(words@, touches(from as int, to as int)) is None,
        },
{
    let ghost p = touches(from as int, to as int);
    let mut i: usize = words.len();
    while i > 0
        invariant
            i <= words.len(),
            p == touches(from as int, to as int),
            forall|k: int| i <= k < words@.len() ==> !p(#[trigger] words@[k]),
        decreases i,
    {
        let (start, end) = words[i - 1];
        if from < end && to > start {
            proof {
                assert(p(words@[i - 1]));
                last_where_is(words@, p, i - 1);
            }
            return Some(i - 1);
        }
        assert(!p(words@[i - 1]));
        i -= 1;
    }
    proof {
        last_where_is_none(words@, p);
    }
    None
}

/// The part of a description around what lies between `from` and `to`.
fn show_around(chars: &Vec<char>, from: usize, to: usize) -> (res: Option<DescriptionMatchPreview>)
    ensures
        match res {
            Some(preview) => preview_around(chars@, from as int, to as int) == Some(preview@),
            None => preview_around(chars@, from as int, to as int) is None,
        },
{
    let words = word_char_ranges(chars);
    let first: usize = match first_touching(&words, from, to) {
        Some(i) => i,
        None => {
            return None;
        },
    };
    let last: usize = match last_touching(&words, from, to) {
        Some(i) => i,
        None => {
            return None;
        },
    };
    let start_word: usize = if first < CONTEXT_WORDS {
        0
    } else {
        first - CONTEXT_WORDS
    };
    let end_word: usize = if words.len() - 1 - last < CONTEXT_WORDS {
        words.len() - 1
    } else {
        last + CONTEXT_WORDS
    };
    let start: usize = words[start_word].0;
    let end: usize = words[end_word].1;
    let mark: usize = if from > start {
        from
    } else {
        start
    };
    let mark_end: usize = if to < end {
        to
    } else {
        end
    };
    if mark >= mark_end {
        return None;
    }
    Some(
        DescriptionMatchPreview {
            before: string_of_range(chars, start, mark),
            matched: string_of_range(chars, mark, mark_end),
            after: string_of_range(chars, mark_end, end),
            has_prefix: start_word > 0,
            has_suffix: end_word + 1 < words.len(),
        },
    )
}

proof fn found_at_is(text: Seq<char>, query: Seq<char>, at: int)
    requires
        first_occurs_at(ascii_lower(text), ascii_lower(query), at),
    ensures
        found_at(text, query) == Some(at),
{
    let hay = ascii_lower(text);
    let needle = ascii_lower(query);
    let c = choose|i: int| first_occurs_at(hay, needle, i);
    assert(first_occurs_at(hay, needle, c));
    if c < at {
        assert(!occurs_at(hay, needle, c));
    } else if at < c {
        assert(!occurs_at(hay, needle, at));
    }
}

/// The part of a description that a search has found.
pub fn description_match_preview(description: &str, query: &str) -> (res: Option<
    DescriptionMatchPreview,
>)
    ensures
        match res {
            Some(preview) => preview_of(description@, query@) == Some(preview@),
            None => preview_of(description@, query@) is None,
        },
{
    let needle = chars_of(trim(query).as_str());
    if needle.len() == 0 {
        return None;
    }
    let chars = chars_of(description);
    match find_chars(&to_ascii_lower(&chars), &to_ascii_lower(&needle)) {
        Some(at) => {
            proof {
                found_at_is(description@, needle@, at as int);
                assert(ascii_lower(chars@).len() == chars.len());
            }
            show_around(&chars, at, at + needle.len())
        },
        None => None,
    }
}

proof fn words_are_ordered(s: Seq<char>, i: int)
    requires
        0 <= i <= s.len() <= usize::MAX,
    ensures
        forall|k: int|
            0 <= k < words_from(s, i).len() ==> i <= (#[trigger] words_from(s, i)[k]).0
                < words_from(s, i)[k].1 <= s.len(),
        forall|j: int, k: int|
            0 <= j < k < words_from(s, i).len() ==> (#[trigger] words_from(s, i)[j]).1 <= (
            #[trigger] words_from(s, i)[k]).0,
    decreases s.len() - i,
{
    if i < s.len() {
        word_end_bounds(s, i);
        if is_white_space(s[i]) {
            words_are_ordered(s, i + 1);
            let rest = words_from(s, i + 1);
            let all = words_from(s, i);
            assert(all == rest);
            assert forall|k: int| 0 <= k < all.len() implies i <= (#[trigger] all[k]).0 < all[k].1
                <= s.len() by {
                assert(rest[k].0 >= i + 1);
            }
        } else {
            let end = word_end(s, i);
            words_are_ordered(s, end);
            let rest = words_from(s, end);
            let all = words_from(s, i);
            assert(all == seq![(i as usize, end as usize)] + rest);
            assert forall|k: int| 0 <= k < all.len() implies i <= (#[trigger] all[k]).0 < all[k].1
                <= s.len() by {
                if k > 0 {
                    assert(all[k] == rest[k - 1]);
                }
            }
            assert forall|j: int, k: int| 0 <= j < k < all.len() implies (#[trigger] all[j]).1 <= (
            #[trigger] all[k]).0 by {
                assert(all[k] == rest[k - 1]);
                if j > 0 {
                    assert(all[j] == rest[j - 1]);
                }
            }
        }
    }
}

proof fn words_cover(s: Seq<char>, i: int, p: int) -> (k: int)
    requires
        0 <= i <= p < s.len() <= usize::MAX,
        !is_white_space(s[p]),
    ensures
        0 <= k < words_from(s, i).len(),
        words_from(s, i)[k].0 <= p < words_from(s, i)[k].1,
    decreases s.len() - i,
{
    word_end_bounds(s, i);
    if is_white_space(s[i]) {
        words_cover(s, i + 1, p)
    } else {
        let end = word_end(s, i);
        assert(words_from(s, i) == seq![(i as usize, end as usize)] + words_from(s, end));
        if p < end {
            0
        } else {
            let k = words_cover(s, end, p);
            assert(words_from(s, i)[k + 1] == words_from(s, end)[k]);
            k + 1
        }
    }
}

/// Where a description holds what is searched for, the part of it that is shown marks just that.
pub proof fn preview_marks_the_match(description: Seq<char>, query: Seq<char>)
    requires
        description.len() <= usize::MAX,
        trimmed(query).len() > 0,
        has_substring(ascii_lower(description), ascii_lower(trimmed(query))),
    ensures
        preview_of(description, query) matches Some(preview) && ascii_lower(preview.matched)
            == ascii_lower(trimmed(query)) && has_substring(
            description,
            preview.before + preview.matched + preview.after,
        ),
{
    let needle = trimmed(query);
    let hay = ascii_lower(description);
    let low = ascii_lower(needle);
    let some = choose|i: int| occurs_at(hay, low, i);
    let from = first_place(hay, low, some);
    found_at_is(description, needle, from);
    let to = from + needle.len();
    assert(hay.subrange(from, to) == low);
    trimmed_is_trimmed(query);
    assert(!is_white_space(description[from])) by {
        assert(hay.subrange(from, to)[0] == low[0]);
    }
    assert(!is_white_space(description[to - 1])) by {
        assert(hay.subrange(from, to)[needle.len() - 1] == low[needle.len() - 1]);
    }
    let words = word_ranges(description);
    words_are_ordered(description, 0);
    let head = words_cover(description, 0, from);
    let tail = words_cover(description, 0, to - 1);
    let p = touches(from, to);
    assert(p(words[head]) && p(words[tail]));
    first_where_exists(words, p, head);
    last_where_exists(words, p, tail);
    let first = first_where(words, p).unwrap();
    let last = last_where(words, p).unwrap();
    let start_word = if first < CONTEXT_WORDS {
        0
    } else {
        first - CONTEXT_WORDS
    };
    let end_word = if last + CONTEXT_WORDS > words.len() - 1 {
        words.len() - 1
    } else {
        last + CONTEXT_WORDS
    };
    let start = words[start_word].0 as int;
    let end = words[end_word].1 as int;
    assert(start <= from) by {
        if start_word < head {
            assert(words[start_word].1 <= words[head].0);
        }
    }
    assert(to <= end) by {
        if tail < end_word {
            assert(words[tail].1 <= words[end_word].0);
        }
    }
    let preview = preview_of(description, query).unwrap();
    assert(ascii_lower(preview.matched) == low) by {
        assert(ascii_lower(description.subrange(from, to)) == hay.subrange(from, to));
    }
    let part = preview.before + preview.matched + preview.after;
    assert(part == description.subrange(start, end));
    assert(occurs_at(description, part, start));
}

proof fn first_place(hay: Seq<char>, needle: Seq<char>, i: int) -> (first: int)
    requires
        occurs_at(hay, needle, i),
    ensures
        first_occurs_at(hay, needle, first),
    decreases i,
{
    if exists|j: int| 0 <= j < i && occurs_at(hay, needle, j) {
        let j = choose|j: int| 0 <= j < i && occurs_at(hay, needle, j);
        first_place(hay, needle, j)
    } else {
        i
    }
}

/// A word: characters that are no white space, with white space or an end of the text on both sides.
pub open spec fn is_word(s: Seq<char>, from: int, to: int) -> bool {
    &&& 0 <= from < to <= s.len()
    &&& forall|k: int| from <= k < to ==> !is_white_space(#[trigger] s[k])
    &&& from > 0 ==> is_white_space(s[from - 1])
    &&& to < s.len() ==> is_white_space(s[to])
}

proof fn word_end_ends(s: Seq<char>, i: int)
    requires
        0 <= i <= s.len(),
    ensures
        forall|k: int| i <= k < word_end(s, i) ==> !is_white_space(#[trigger] s[k]),
        word_end(s, i) < s.len() ==> is_white_space(s[word_end(s, i)]),
    decreases s.len() - i,
{
    if i < s.len() && !is_white_space(s[i]) {
        word_end_ends(s, i + 1);
    }
}

proof fn words_from_are_words(s: Seq<char>, i: int)
    requires
        0 <= i <= s.len() <= usize::MAX,
        0 < i < s.len() ==> is_white_space(s[i - 1]) || is_white_space(s[i]),
    ensures
        forall|k: int|
            0 <= k < words_from(s, i).len() ==> is_word(
                s,
                (#[trigger] words_from(s, i)[k]).0 as int,
                words_from(s, i)[k].1 as int,
            ),
    decreases s.len() - i,
{
    if i < s.len() {
        word_end_bounds(s, i);
        word_end_ends(s, i);
        if is_white_space(s[i]) {
            words_from_are_words(s, i + 1);
            let rest = words_from(s, i + 1);
            let all = words_from(s, i);
            assert(all == rest);
            assert forall|k: int| 0 <= k < all.len() implies is_word(
                s,
                (#[trigger] all[k]).0 as int,
                all[k].1 as int,
            ) by {
                assert(is_word(s, rest[k].0 as int, rest[k].1 as int));
            }
        } else {
            let end = word_end(s, i);
            words_from_are_words(s, end);
            let rest = words_from(s, end);
            let all = words_from(s, i);
            assert(all == seq![(i as usize, end as usize)] + rest);
            assert forall|k: int| 0 <= k < all.len() implies is_word(
                s,
                (#[trigger] all[k]).0 as int,
                all[k].1 as int,
            ) by {
                if k > 0 {
                    assert(all[k] == rest[k - 1]);
                }
            }
        }
    }
}

/// The words of a text are all of them, in their order.
pub proof fn words_lie_between_white_space(s: Seq<char>, from: usize, to: usize, j: int, k: int)
    requires
        s.len() <= usize::MAX,
    ensures
        word_ranges(s).contains((from, to)) <==> is_word(s, from as int, to as int),
        0 <= j < k < word_ranges(s).len() ==> word_ranges(s)[j].1 < word_ranges(s)[k].0,
{
    words_from_are_words(s, 0);
    words_are_ordered(s, 0);
    let words = word_ranges(s);
    if words.contains((from, to)) {
        let at = choose|at: int| 0 <= at < words.len() && words[at] == (from, to);
        assert(is_word(s, words[at].0 as int, words[at].1 as int));
    }
    if is_word(s, from as int, to as int) {
        assert(!is_white_space(s[from as int]));
        let at = words_cover(s, 0, from as int);
        let word = words[at];
        assert(is_word(s, word.0 as int, word.1 as int));
        if word.0 < from {
            assert(!is_white_space(s[from - 1]));
        }
        if word.1 < to {
            assert(!is_white_space(s[word.1 as int]));
        }
        if to < word.1 {
            assert(!is_white_space(s[to as int]));
        }
        assert(words[at] == (from, to));
    }
    if 0 <= j < k < words.len() {
        assert(is_word(s, words[j].0 as int, words[j].1 as int));
        assert(is_word(s, words[k].0 as int, words[k].1 as int));
        assert(words[j].1 <= words[k].0);
        if words[j].1 == words[k].0 {
            assert(!is_white_space(s[words[k].0 as int]));
        }
    }
}

/// Where a search is blank, or is not found in a description, nothing of it is shown.
pub proof fn nothing_is_shown_of_what_is_not_found(description: Seq<char>, query: Seq<char>)
    requires
        trimmed(query).len() == 0 || !has_substring(
            ascii_lower(description),
            ascii_lower(trimmed(query)),
        ),
    ensures
        preview_of(description, query) is None,
{
}

/// What is shown of a description is the first place where it holds what is searched for, with up to
/// three words before the word in which that begins and three behind the word in which it ends; and
/// it is told on each side whether there are more.
pub proof fn three_words_stand_on_each_side(
    description: Seq<char>,
    query: Seq<char>,
    at: int,
    head: int,
    tail: int,
)
    requires
        description.len() <= usize::MAX,
        trimmed(query).len() > 0,
        occurs_at(ascii_lower(description), ascii_lower(trimmed(query)), at),
        forall|j: int|
            0 <= j < at ==> !occurs_at(
                ascii_lower(description),
                #[trigger] ascii_lower(trimmed(query)),
                j,
            ),
        0 <= head < word_ranges(description).len(),
        0 <= tail < word_ranges(description).len(),
        word_ranges(description)[head].0 <= at < word_ranges(description)[head].1,
        word_ranges(description)[tail].0 < at + trimmed(query).len()
            <= word_ranges(description)[tail].1,
    ensures
        ({
            let words = word_ranges(description);
            let to = at + trimmed(query).len();
            let first = if head >= 3 {
                head - 3
            } else {
                0
            };
            let last = if tail + 3 < words.len() {
                tail + 3
            } else {
                words.len() - 1
            };
            preview_of(description, query) == Some(
                PreviewModel {
                    before: description.subrange(words[first].0 as int, at),
                    matched: description.subrange(at, to),
                    after: description.subrange(to, words[last].1 as int),
                    has_prefix: head > 3,
                    has_suffix: tail + 4 < words.len(),
                },
            )
        }),
{
    let needle = trimmed(query);
    let words = word_ranges(description);
    let to = at + needle.len();
    let p = touches(at, to);
    found_at_is(description, needle, at);
    words_are_ordered(description, 0);
    assert(is_first_where(words, p, head)) by {
        assert forall|j: int| 0 <= j < head implies !p(#[trigger] words[j]) by {
            assert(words[j].1 <= words[head].0);
        }
    }
    assert(is_last_where(words, p, tail)) by {
        assert forall|j: int| tail < j < words.len() implies !p(#[trigger] words[j]) by {
            assert(words[tail].1 <= words[j].0);
        }
    }
    first_where_is(words, p, head);
    last_where_is(words, p, tail);
    let first = if head >= 3 {
        head - 3
    } else {
        0
    };
    let last = if tail + 3 < words.len() {
        tail + 3
    } else {
        words.len() - 1
    };
    if first < head {
        assert(words[first].1 <= words[head].0);
    }
    if tail < last {
        assert(words[tail].1 <= words[last].0);
    }
}

} // verus!
