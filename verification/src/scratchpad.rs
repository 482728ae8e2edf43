//! The text that is handed to the text editor and read back from it: a block of help in front, which
//! is left out again, and then the text itself.

use vstd::prelude::*;
use vstd::string::*;

use crate::seqs::views_push;
use crate::sorting::views;
use crate::text::{chars_of, same_text, string_of_range};

verus! {

/// The line that the block of help begins with.
pub const VIM_HELP_START: &'static str = "# ----- life-tracking help -----";

/// The line that the block of help ends with.
pub const VIM_HELP_END: &'static str = "# ----- end life-tracking help -----";

/// Lines, each with a line feed behind it.
pub open spec fn closed_lines(lines: Seq<Seq<char>>) -> Seq<char>
    decreases lines.len(),
{
    if lines.len() == 0 {
        Seq::empty()
    } else {
        closed_lines(lines.drop_last()) + lines.last().push('\n')
    }
}

/// The text that is handed to the editor.
pub open spec fn with_help(help: Seq<Seq<char>>, text: Seq<char>) -> Seq<char> {
    VIM_HELP_START@.push('\n') + closed_lines(help) + VIM_HELP_END@.push('\n').push('\n') + text
}

/// Where the first line feed stands, or the length of the text where there is none.
pub open spec fn line_end(s: Seq<char>) -> nat
    decreases s.len(),
{
    if s.len() == 0 || s[0] == '\n' {
        0
    } else {
        1 + line_end(s.drop_first())
    }
}

/// A line without the carriage return at its end.
pub open spec fn without_return(s: Seq<char>) -> Seq<char> {
    if s.len() > 0 && s.last() == '\r' {
        s.drop_last()
    } else {
        s
    }
}

/// The lines of a text. A line ends with a line feed, and perhaps a carriage return in front of it;
/// the last may end with neither.
pub open spec fn lines_of(s: Seq<char>) -> Seq<Seq<char>>
    decreases s.len(),
{
    if s.len() == 0 {
        Seq::empty()
    } else if line_end(s) >= s.len() {
        seq![s]
    } else {
        seq![without_return(s.take(line_end(s) as int))] + lines_of(s.skip(line_end(s) as int + 1))
    }
}

/// The lines outside blocks of help; `skipping` tells whether the first stands in one.
pub open spec fn kept_lines(lines: Seq<Seq<char>>, skipping: bool) -> Seq<Seq<char>>
    decreases lines.len(),
{
    if lines.len() == 0 {
        Seq::empty()
    } else {
        let rest = lines.drop_first();
        if lines[0] == VIM_HELP_START@ {
            kept_lines(rest, true)
        } else if lines[0] == VIM_HELP_END@ {
            kept_lines(rest, false)
        } else if skipping {
            kept_lines(rest, true)
        } else {
            seq![lines[0]] + kept_lines(rest, false)
        }
    }
}

/// Lines, each with a line feed in front of it.
pub open spec fn led_lines(lines: Seq<Seq<char>>) -> Seq<char>
    decreases lines.len(),
{
    if lines.len() == 0 {
        Seq::empty()
    } else {
        seq!['\n'] + lines[0] + led_lines(lines.drop_first())
    }
}

/// Lines with line feeds between them.
pub open spec fn joined_lines(lines: Seq<Seq<char>>) -> Seq<char> {
    if lines.len() == 0 {
        Seq::empty()
    } else {
        lines[0] + led_lines(lines.drop_first())
    }
}

/// A text without the line feeds that it begins with.
pub open spec fn without_leading_feeds(s: Seq<char>) -> Seq<char>
    decreases s.len(),
{
    if s.len() > 0 && s[0] == '\n' {
        without_leading_feeds(s.drop_first())
    } else {
        s
    }
}

/// The text that is read back from the editor.
pub open spec fn without_help(s: Seq<char>) -> Seq<char> {
    without_leading_feeds(joined_lines(kept_lines(lines_of(s), false)))
}

proof fn line_end_bounds(s: Seq<char>)
    ensures
        0 <= line_end(s) <= s.len(),
        line_end(s) < s.len() ==> s[line_end(s) as int] == '\n',
        forall|k: int| 0 <= k < line_end(s) ==> #[trigger] s[k] != '\n',
    decreases s.len(),
{
    if s.len() > 0 && s[0] != '\n' {
        line_end_bounds(s.drop_first());
        assert forall|k: int| 0 <= k < line_end(s) implies #[trigger] s[k] != '\n' by {
            if k > 0 {
                assert(s.drop_first()[k - 1] == s[k]);
            }
        }
    }
}

proof fn line_end_is(s: Seq<char>, end: int)
    requires
        0 <= end <= s.len(),
        end < s.len() ==> s[end] == '\n',
        forall|k: int| 0 <= k < end ==> #[trigger] s[k] != '\n',
    ensures
        line_end(s) == end,
{
    line_end_bounds(s);
}

/// The text that is handed to the editor.
pub fn add_help(help: &Vec<&str>, text: &str) -> (res: String)
    ensures
        res@ == with_help(views(help@), text@),
{
    let mut res = VIM_HELP_START.to_string();
    res.push('\n');
    let mut i: usize = 0;
    let ghost start = res@;
    assert(start + closed_lines(views(help@).take(0)) == start);
    while i < help.len()
        invariant
            i <= help@.len(),
            res@ == start + closed_lines(views(help@).take(i as int)),
        decreases help.len() - i,
    {
        proof {
            assert(views(help@).take(i + 1).drop_last() == views(help@).take(i as int));
            assert(views(help@).take(i + 1).last() == help@[i as int]@);
        }
        let ghost before = res@;
        res.append(help[i]);
        res.push('\n');
        assert(res@ == before + help@[i as int]@.push('\n'));
        i += 1;
    }
    assert(views(help@).take(i as int) == views(help@));
    let ghost before = res@;
    res.append(VIM_HELP_END);
    res.push('\n');
    res.push('\n');
    assert(res@ == before + VIM_HELP_END@.push('\n').push('\n'));
    res.append(text);
    res
}

/// The lines of a text.
pub fn split_lines(s: &str) -> (res: Vec<String>)
    ensures
        views(res@) == lines_of(s@),
{
    let chars = chars_of(s);
    let ghost all = s@;
    let mut res: Vec<String> = Vec::new();
    let mut at: usize = 0;
    assert(all.skip(0) == all);
    assert(views(res@) + lines_of(all) == lines_of(all));
    while at < chars.len()
        invariant
            chars@ == all,
            at <= chars.len(),
            lines_of(all) == views(res@) + lines_of(all.skip(at as int)),
        decreases chars.len() - at,
    {
        let ghost rest = all.skip(at as int);
        let mut end: usize = at;
        while end < chars.len() && chars[end] != '\n'
            invariant
                chars@ == all,
                at <= end <= chars.len(),
                forall|k: int| at <= k < end ==> #[trigger] all[k] != '\n',
            decreases chars.len() - end,
        {
            end += 1;
        }
        proof {
            assert forall|k: int| 0 <= k < end - at implies #[trigger] rest[k] != '\n' by {
                assert(all[at + k] != '\n');
            }
            line_end_is(rest, end - at);
        }
        if end == chars.len() {
            let line = string_of_range(&chars, at, end);
            proof {
                assert(line@ == rest);
                views_push(res@, line);
                assert(views(res@).push(line@) + lines_of(all.skip(end as int)) == views(res@)
                    + seq![rest]);
            }
            res.push(line);
            at = end;
        } else {
            let stop: usize = if end > at && chars[end - 1] == '\r' {
                end - 1
            } else {
                end
            };
            let line = string_of_range(&chars, at, stop);
            proof {
                assert(line@ == without_return(rest.take(end - at)));
                views_push(res@, line);
                assert(rest.skip(end - at + 1) == all.skip(end + 1));
                assert(views(res@).push(line@) + lines_of(all.skip(end + 1)) == views(res@) + (seq![
                    line@,
                ] + lines_of(all.skip(end + 1))));
            }
            res.push(line);
            at = end + 1;
        }
    }
    assert(all.skip(at as int) == Seq::<char>::empty());
    assert(views(res@) + lines_of(all.skip(at as int)) == views(res@));
    res
}

/// Lines with line feeds between them.
fn join_lines(lines: &Vec<String>) -> (res: String)
    ensures
        res@ == joined_lines(views(lines@)),
{
    let ghost all = views(lines@);
    if lines.len() == 0 {
        return String::new();
    }
    let mut res = lines[0].clone();
    let mut i: usize = 1;
    assert(all.skip(1) == all.drop_first());
    while i < lines.len()
        invariant
            all == views(lines@),
            1 <= i <= lines@.len(),
            joined_lines(all) == res@ + led_lines(all.skip(i as int)),
        decreases lines.len() - i,
    {
        let ghost before = res@;
        res.push('\n');
        res.append(lines[i].as_str());
        proof {
            assert(all.skip(i as int).drop_first() == all.skip(i + 1));
            assert(all.skip(i as int)[0] == lines@[i as int]@);
            assert(res@ == before + (seq!['\n'] + lines@[i as int]@));
            assert(before + (seq!['\n'] + lines@[i as int]@ + led_lines(all.skip(i + 1))) == res@
                + led_lines(all.skip(i + 1)));
        }
        i += 1;
    }
    assert(all.skip(i as int) == Seq::<Seq<char>>::empty());
    assert(res@ + led_lines(all.skip(i as int)) == res@);
    res
}

/// The text that is read back from the editor: what stands outside the block of help.
pub fn strip_vim_help_block(content: &str) -> (res: String)
    ensures
        res@ == without_help(content@),
{
    let lines = split_lines(content);
    let ghost all = views(lines@);
    let mut kept: Vec<String> = Vec::new();
    let mut skipping = false;
    let mut i: usize = 0;
    assert(all.skip(0) == all);
    assert(views(kept@) + kept_lines(all, false) == kept_lines(all, false));
    while i < lines.len()
        invariant
            all == views(lines@),
            i <= lines@.len(),
            kept_lines(all, false) == views(kept@) + kept_lines(all.skip(i as int), skipping),
        decreases lines.len() - i,
    {
        proof {
            assert(all.skip(i as int).drop_first() == all.skip(i + 1));
            assert(all.skip(i as int)[0] == lines@[i as int]@);
        }
        let line = lines[i].as_str();
        if same_text(line, VIM_HELP_START) {
            skipping = true;
        } else if same_text(line, VIM_HELP_END) {
            skipping = false;
        } else if !skipping {
            let copy = lines[i].clone();
            proof {
                views_push(kept@, copy);
                assert(views(kept@).push(copy@) + kept_lines(all.skip(i + 1), false) == views(kept@)
                    + (seq![copy@] + kept_lines(all.skip(i + 1), false)));
            }
            kept.push(copy);
        }
        i += 1;
    }
    assert(all.skip(i as int) == Seq::<Seq<char>>::empty());
    assert(views(kept@) + kept_lines(all.skip(i as int), skipping) == views(kept@));
    let joined = chars_of(join_lines(&kept).as_str());
    let mut at: usize = 0;
    assert(joined@.skip(0) == joined@);
    while at < joined.len() && joined[at] == '\n'
        invariant
            at <= joined.len(),
            without_leading_feeds(joined@) == without_leading_feeds(joined@.skip(at as int)),
        decreases joined.len() - at,
    {
        assert(joined@.skip(at as int).drop_first() == joined@.skip(at + 1));
        at += 1;
    }
    assert(joined@.subrange(at as int, joined@.len() as int) == joined@.skip(at as int));
    string_of_range(&joined, at, joined.len())
}

/// A line that ends where its line feed stands: it holds none itself, and no carriage return at its
/// end.
pub open spec fn is_plain_line(line: Seq<char>) -> bool {
    &&& forall|k: int| 0 <= k < line.len() ==> #[trigger] line[k] != '\n'
    &&& line.len() > 0 ==> line.last() != '\r'
}

/// A line of help: it does not end the block.
pub open spec fn is_help_line(line: Seq<char>) -> bool {
    is_plain_line(line) && line != VIM_HELP_END@
}

/// A text that is the same after its lines are parted and joined again, and that holds no line that
/// begins or ends a block of help.
pub open spec fn is_plain_text(text: Seq<char>) -> bool {
    &&& text.len() > 0 ==> text[0] != '\n' && text.last() != '\n'
    &&& forall|k: int| 0 < k < text.len() && #[trigger] text[k] == '\n' ==> text[k - 1] != '\r'
    &&& has_no_marker(lines_of(text))
}

pub open spec fn has_no_marker(lines: Seq<Seq<char>>) -> bool {
    forall|i: int|
        0 <= i < lines.len() ==> #[trigger] lines[i] != VIM_HELP_START@ && lines[i]
            != VIM_HELP_END@
}

proof fn first_line(line: Seq<char>, rest: Seq<char>)
    requires
        is_plain_line(line),
    ensures
        lines_of(line.push('\n') + rest) == seq![line] + lines_of(rest),
{
    let s = line.push('\n') + rest;
    assert forall|k: int| 0 <= k < line.len() implies #[trigger] s[k] != '\n' by {
        assert(s[k] == line[k]);
    }
    line_end_is(s, line.len() as int);
    assert(s.take(line.len() as int) == line);
    assert(s.skip(line.len() as int + 1) == rest);
}

proof fn first_lines(lines: Seq<Seq<char>>, rest: Seq<char>)
    requires
        forall|i: int| 0 <= i < lines.len() ==> is_plain_line(#[trigger] lines[i]),
    ensures
        lines_of(closed_lines(lines) + rest) == lines + lines_of(rest),
    decreases lines.len(),
{
    if lines.len() == 0 {
        assert(closed_lines(lines) + rest == rest);
        assert(lines + lines_of(rest) == lines_of(rest));
    } else {
        let before = lines.drop_last();
        let last = lines.last();
        let tail = last.push('\n') + rest;
        assert(closed_lines(lines) + rest == closed_lines(before) + tail);
        first_lines(before, tail);
        first_line(last, rest);
        assert(before + (seq![last] + lines_of(rest)) == lines + lines_of(rest));
    }
}

proof fn help_is_skipped(help: Seq<Seq<char>>, rest: Seq<Seq<char>>)
    requires
        forall|i: int| 0 <= i < help.len() ==> #[trigger] help[i] != VIM_HELP_END@,
    ensures
        kept_lines(help + rest, true) == kept_lines(rest, true),
    decreases help.len(),
{
    if help.len() == 0 {
        assert(help + rest == rest);
    } else {
        assert((help + rest).drop_first() == help.drop_first() + rest);
        assert((help + rest)[0] == help[0]);
        assert forall|i: int| 0 <= i < help.drop_first().len() implies #[trigger] help.drop_first()[i]
            != VIM_HELP_END@ by {
            assert(help[i + 1] != VIM_HELP_END@);
        }
        help_is_skipped(help.drop_first(), rest);
    }
}

proof fn unmarked_lines_are_kept(lines: Seq<Seq<char>>)
    requires
        has_no_marker(lines),
    ensures
        kept_lines(lines, false) == lines,
    decreases lines.len(),
{
    if lines.len() > 0 {
        assert forall|i: int| 0 <= i < lines.drop_first().len() implies #[trigger] lines.drop_first()[i]
            != VIM_HELP_START@ && lines.drop_first()[i] != VIM_HELP_END@ by {
            assert(lines[i + 1] != VIM_HELP_START@);
        }
        unmarked_lines_are_kept(lines.drop_first());
        assert(lines[0] != VIM_HELP_START@);
        assert(seq![lines[0]] + lines.drop_first() == lines);
    }
}

/// Joining the lines of a text gives the text.
proof fn lines_join_again(text: Seq<char>)
    requires
        text.len() > 0,
        text.last() != '\n',
        forall|k: int| 0 < k < text.len() && #[trigger] text[k] == '\n' ==> text[k - 1] != '\r',
    ensures
        lines_of(text).len() > 0,
        joined_lines(lines_of(text)) == text,
    decreases text.len(),
{
    line_end_bounds(text);
    let end = line_end(text) as int;
    if end >= text.len() {
        assert(lines_of(text).drop_first() == Seq::<Seq<char>>::empty());
        assert(text + led_lines(Seq::empty()) == text);
    } else {
        let rest = text.skip(end + 1);
        let line = text.take(end);
        assert(rest.last() == text.last());
        assert forall|k: int| 0 < k < rest.len() && #[trigger] rest[k] == '\n' implies rest[k - 1]
            != '\r' by {
            assert(text[end + 1 + k] == '\n');
        }
        lines_join_again(rest);
        assert(without_return(line) == line) by {
            if end > 0 {
                assert(text[end] == '\n');
                assert(line.last() == text[end - 1]);
            }
        }
        assert(lines_of(text).drop_first() == lines_of(rest));
        assert(led_lines(lines_of(rest)) == seq!['\n'] + joined_lines(lines_of(rest)));
        assert(line + (seq!['\n'] + rest) == text);
    }
}

/// A line feed at the end of a text adds no line.
proof fn last_feed_adds_no_line(text: Seq<char>)
    requires
        text.len() > 0,
        text.last() != '\n',
        text.last() != '\r',
    ensures
        lines_of(text.push('\n')) == lines_of(text),
    decreases text.len(),
{
    line_end_bounds(text);
    let end = line_end(text) as int;
    let s = text.push('\n');
    assert forall|k: int| 0 <= k < end implies #[trigger] s[k] != '\n' by {
        assert(text[k] != '\n');
    }
    line_end_is(s, end);
    if end >= text.len() {
        assert(s.take(end) == text);
        assert(s.skip(end + 1) == Seq::<char>::empty());
        assert(lines_of(Seq::<char>::empty()) == Seq::<Seq<char>>::empty());
        assert(seq![text] + Seq::<Seq<char>>::empty() == seq![text]);
    } else {
        let rest = text.skip(end + 1);
        assert(s.take(end) == text.take(end));
        assert(s.skip(end + 1) == rest.push('\n'));
        assert(rest.last() == text.last());
        last_feed_adds_no_line(rest);
    }
}

proof fn markers_are_plain()
    ensures
        is_plain_line(VIM_HELP_START@),
        is_plain_line(VIM_HELP_END@),
        VIM_HELP_START@ != VIM_HELP_END@,
        VIM_HELP_START@.len() > 0,
        VIM_HELP_END@.len() > 0,
{
    reveal_strlit("# ----- life-tracking help -----");
    reveal_strlit("# ----- end life-tracking help -----");
}

/// What is kept of a file that begins with a block of help.
proof fn help_block_is_left_out(help: Seq<Seq<char>>, text: Seq<char>)
    requires
        forall|i: int| 0 <= i < help.len() ==> is_help_line(#[trigger] help[i]),
    ensures
        kept_lines(lines_of(with_help(help, text)), false) == seq![Seq::<char>::empty()]
            + kept_lines(lines_of(text), false),
{
    markers_are_plain();
    let blank = Seq::<char>::empty();
    let after_end = blank.push('\n') + text;
    let after_help = VIM_HELP_END@.push('\n') + after_end;
    let after_start = closed_lines(help) + after_help;
    assert(with_help(help, text) == VIM_HELP_START@.push('\n') + after_start);
    first_line(VIM_HELP_START@, after_start);
    first_lines(help, after_help);
    first_line(VIM_HELP_END@, after_end);
    first_line(blank, text);
    let tail = seq![blank] + lines_of(text);
    let rest = seq![VIM_HELP_END@] + tail;
    let body = help + rest;
    assert(lines_of(with_help(help, text)) == seq![VIM_HELP_START@] + body);
    assert((seq![VIM_HELP_START@] + body).drop_first() == body);
    assert forall|i: int| 0 <= i < help.len() implies #[trigger] help[i] != VIM_HELP_END@ by {
        assert(is_help_line(help[i]));
    }
    help_is_skipped(help, rest);
    assert(rest.drop_first() == tail);
    assert(tail.drop_first() == lines_of(text));
    assert(kept_lines(tail, false) == seq![blank] + kept_lines(lines_of(text), false));
}

/// A text that the editor leaves as it is is read back as it was handed over.
pub proof fn text_reads_back(help: Seq<Seq<char>>, text: Seq<char>)
    requires
        forall|i: int| 0 <= i < help.len() ==> is_help_line(#[trigger] help[i]),
        is_plain_text(text),
    ensures
        without_help(with_help(help, text)) == text,
{
    let blank = Seq::<char>::empty();
    help_block_is_left_out(help, text);
    unmarked_lines_are_kept(lines_of(text));
    let kept = seq![blank] + lines_of(text);
    assert(kept.drop_first() == lines_of(text));
    if text.len() == 0 {
        assert(text == blank);
        assert(lines_of(text) == Seq::<Seq<char>>::empty());
        assert(joined_lines(kept) == blank);
        assert(without_leading_feeds(blank) == blank);
    } else {
        lines_join_again(text);
        assert(joined_lines(kept) == seq!['\n'] + text) by {
            assert(led_lines(lines_of(text)) == seq!['\n'] + joined_lines(lines_of(text)));
            assert(blank + (seq!['\n'] + text) == seq!['\n'] + text);
        }
        assert((seq!['\n'] + text).drop_first() == text);
        assert(without_leading_feeds(text) == text);
    }
}

/// So is a text to which the editor adds a line feed at the end.
pub proof fn closed_text_reads_back(help: Seq<Seq<char>>, text: Seq<char>)
    requires
        forall|i: int| 0 <= i < help.len() ==> is_help_line(#[trigger] help[i]),
        is_plain_text(text),
        text.len() > 0 ==> text.last() != '\r',
    ensures
        without_help(with_help(help, text).push('\n')) == text,
{
    let blank = Seq::<char>::empty();
    assert(with_help(help, text).push('\n') == with_help(help, text.push('\n')));
    help_block_is_left_out(help, text.push('\n'));
    if text.len() == 0 {
        assert(text.push('\n') == blank.push('\n') + blank);
        first_line(blank, blank);
        assert(lines_of(text.push('\n')) == seq![blank]);
        markers_are_plain();
        unmarked_lines_are_kept(seq![blank]);
        let kept = seq![blank] + seq![blank];
        assert(kept.drop_first() == seq![blank]);
        assert(seq![blank].drop_first() == Seq::<Seq<char>>::empty());
        assert(led_lines(Seq::<Seq<char>>::empty()) == blank);
        assert(led_lines(seq![blank]) == seq!['\n'] + blank + blank);
        assert(joined_lines(kept) == seq!['\n']);
        assert(seq!['\n'].drop_first() == blank);
        assert(without_leading_feeds(blank) == blank);
    } else {
        last_feed_adds_no_line(text);
        help_block_is_left_out(help, text);
        text_reads_back(help, text);
    }
}

/// A line of a text goes up to the next line feed; a carriage return before that is left out. What is
/// behind the last line feed is a line too, unless it is empty.
pub proof fn lines_end_at_line_feeds(line: Seq<char>, rest: Seq<char>)
    requires
        forall|k: int| 0 <= k < line.len() ==> #[trigger] line[k] != '\n',
    ensures
        lines_of(Seq::empty()).len() == 0,
        line.len() > 0 ==> lines_of(line) == seq![line],
        (line.len() == 0 || line.last() != '\r') ==> lines_of(line + seq!['\n'] + rest) == seq![line]
            + lines_of(rest),
        lines_of(line + seq!['\r', '\n'] + rest) == seq![line] + lines_of(rest),
{
    line_end_is(line, line.len() as int);
    let s = line + seq!['\n'] + rest;
    assert forall|k: int| 0 <= k < line.len() implies #[trigger] s[k] != '\n' by {
        assert(s[k] == line[k]);
    }
    line_end_is(s, line.len() as int);
    assert(s.take(line.len() as int) == line);
    assert(s.skip(line.len() as int + 1) == rest);
    let t = line + seq!['\r', '\n'] + rest;
    assert forall|k: int| 0 <= k < line.len() + 1 implies #[trigger] t[k] != '\n' by {
        if k < line.len() {
            assert(t[k] == line[k]);
        }
    }
    line_end_is(t, line.len() as int + 1);
    assert(t.take(line.len() as int + 1) == line.push('\r'));
    assert(line.push('\r').drop_last() == line);
    assert(t.skip(line.len() as int + 2) == rest);
}

proof fn kept_lines_of_unmarked(lines: Seq<Seq<char>>, rest: Seq<Seq<char>>)
    requires
        has_no_marker(lines),
    ensures
        kept_lines(lines + rest, false) == lines + kept_lines(rest, false),
        kept_lines(lines + rest, true) == kept_lines(rest, true),
    decreases lines.len(),
{
    if lines.len() == 0 {
        assert(lines + rest == rest);
        assert(lines + kept_lines(rest, false) == kept_lines(rest, false));
    } else {
        let others = lines.drop_first();
        assert((lines + rest).drop_first() == others + rest);
        assert((lines + rest)[0] == lines[0]);
        kept_lines_of_unmarked(others, rest);
        assert(seq![lines[0]] + (others + kept_lines(rest, false)) == lines + kept_lines(
            rest,
            false,
        ));
    }
}

proof fn skipped_lines(lines: Seq<Seq<char>>, rest: Seq<Seq<char>>)
    requires
        forall|i: int|
            0 <= i < lines.len() ==> #[trigger] lines[i] != "# ----- end life-tracking help -----"@,
    ensures
        kept_lines(lines + rest, true) == kept_lines(rest, true),
    decreases lines.len(),
{
    if lines.len() == 0 {
        assert(lines + rest == rest);
    } else {
        let others = lines.drop_first();
        assert((lines + rest).drop_first() == others + rest);
        assert((lines + rest)[0] == lines[0]);
        assert forall|i: int| 0 <= i < others.len() implies #[trigger] others[i]
            != "# ----- end life-tracking help -----"@ by {
            assert(others[i] == lines[i + 1]);
        }
        skipped_lines(others, rest);
    }
}

/// Lines are kept up to the one that begins a block of help, and go on behind the one that ends it;
/// where none does, nothing more is kept. A line that ends a block where none has begun is left out.
pub proof fn lines_of_help_are_left_out(
    before: Seq<Seq<char>>,
    help: Seq<Seq<char>>,
    rest: Seq<Seq<char>>,
)
    requires
        has_no_marker(before),
        forall|i: int|
            0 <= i < help.len() ==> #[trigger] help[i] != "# ----- end life-tracking help -----"@,
    ensures
        kept_lines(before, false) == before,
        kept_lines(
            before + seq!["# ----- life-tracking help -----"@] + help
                + seq!["# ----- end life-tracking help -----"@] + rest,
            false,
        ) == before + kept_lines(rest, false),
        kept_lines(before + seq!["# ----- life-tracking help -----"@] + help, false) == before,
        kept_lines(before + seq!["# ----- end life-tracking help -----"@] + rest, false) == before
            + kept_lines(rest, false),
{
    markers_are_plain();
    let start = "# ----- life-tracking help -----"@;
    let end = "# ----- end life-tracking help -----"@;
    let none = Seq::<Seq<char>>::empty();
    assert(before + none == before);
    kept_lines_of_unmarked(before, none);
    assert(before + kept_lines(none, false) == before);
    let tail = seq![end] + rest;
    assert(tail[0] == end && tail.drop_first() == rest);
    let block = seq![start] + (help + tail);
    assert(block[0] == start && block.drop_first() == help + tail);
    skipped_lines(help, tail);
    kept_lines_of_unmarked(before, block);
    assert(before + seq![start] + help + seq![end] + rest == before + block);
    let open = seq![start] + help;
    assert(open[0] == start && open.drop_first() == help);
    assert(help + none == help);
    skipped_lines(help, none);
    kept_lines_of_unmarked(before, open);
    assert(before + seq![start] + help == before + open);
    assert(before + kept_lines(open, false) == before);
    kept_lines_of_unmarked(before, tail);
    assert(before + seq![end] + rest == before + tail);
}

proof fn led_lines_push(lines: Seq<Seq<char>>, line: Seq<char>)
    ensures
        led_lines(lines.push(line)) == led_lines(lines) + seq!['\n'] + line,
    decreases lines.len(),
{
    if lines.len() == 0 {
        let one = lines.push(line);
        assert(one.drop_first() == lines);
        assert(led_lines(one) == led_lines(lines) + seq!['\n'] + line);
    } else {
        assert(lines.push(line).drop_first() == lines.drop_first().push(line));
        led_lines_push(lines.drop_first(), line);
        assert(led_lines(lines.push(line)) == led_lines(lines) + seq!['\n'] + line);
    }
}

/// Lines are joined with a line feed between two of them, and closed with one behind each.
pub proof fn lines_are_joined_by_line_feeds(lines: Seq<Seq<char>>, line: Seq<char>)
    ensures
        joined_lines(Seq::empty()).len() == 0,
        joined_lines(seq![line]) == line,
        lines.len() > 0 ==> joined_lines(lines.push(line)) == joined_lines(lines) + seq!['\n']
            + line,
        closed_lines(Seq::empty()).len() == 0,
        closed_lines(lines.push(line)) == closed_lines(lines) + line + seq!['\n'],
{
    assert(seq![line].drop_first() == Seq::<Seq<char>>::empty());
    assert(joined_lines(seq![line]) == line);
    assert(lines.push(line).drop_last() == lines);
    if lines.len() > 0 {
        assert(lines.push(line).drop_first() == lines.drop_first().push(line));
        led_lines_push(lines.drop_first(), line);
        assert(joined_lines(lines.push(line)) == joined_lines(lines) + seq!['\n'] + line);
    }
    assert(closed_lines(lines.push(line)) == closed_lines(lines) + line + seq!['\n']);
}

proof fn leading_feeds_are_left_out(s: Seq<char>) -> (n: nat)
    ensures
        s == Seq::new(n, |i: int| '\n') + without_leading_feeds(s),
        without_leading_feeds(s).len() > 0 ==> without_leading_feeds(s)[0] != '\n',
    decreases s.len(),
{
    if s.len() > 0 && s[0] == '\n' {
        let n = leading_feeds_are_left_out(s.drop_first());
        let feeds = Seq::new(n + 1, |i: int| '\n');
        assert(feeds.drop_first() == Seq::new(n, |i: int| '\n'));
        assert(s == feeds + without_leading_feeds(s)) by {
            let rest = without_leading_feeds(s);
            assert(s == seq!['\n'] + s.drop_first());
            assert(feeds + rest == seq!['\n'] + (Seq::new(n, |i: int| '\n') + rest));
        }
        n + 1
    } else {
        assert(s == Seq::new(0, |i: int| '\n') + without_leading_feeds(s));
        0
    }
}

/// The text without its help is that of the lines that are kept, but for the line feeds that it begins
/// with.
pub proof fn text_is_that_of_the_kept_lines(s: Seq<char>) -> (feeds: nat)
    ensures
        joined_lines(kept_lines(lines_of(s), false)) == Seq::new(feeds, |i: int| '\n')
            + without_help(s),
        without_help(s).len() > 0 ==> without_help(s)[0] != '\n',
{
    leading_feeds_are_left_out(joined_lines(kept_lines(lines_of(s), false)))
}

} // verus!
