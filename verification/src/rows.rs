//! The rows of tasks on the screen, with the days that they are grouped by.

use vstd::prelude::*;
use vstd::string::*;

use crate::color::{parse_hex_color, parsed_color};
use crate::date::{day_text, Date};
use crate::labels::{empty_if_blank, fit_column, fitted, pad_left, padded_left, shown_text};
use crate::preview::{description_match_preview, preview_of, DescriptionMatchPreview, PreviewModel};
use crate::seqs::views_push;
use crate::sorting::views;
use crate::state::{clamp_index, clamped, optional};
use crate::task::{TaskItemModel, TaskKey, TaskSortMode, TaskViewItem};
use crate::text::{decimal, signed_decimal, to_decimal, to_signed_decimal};

verus! {

/// What stands in a row: a day, or the task at a position.
pub enum RowKind {
    Day(int),
    Item(int),
}

/// The rows of the first tasks, the day of the last of them, and whether today is among the days.
pub struct RowLayout {
    pub kinds: Seq<RowKind>,
    pub previous: Option<int>,
    pub told: bool,
}

/// With today put in front of the first day that comes after it.
pub open spec fn with_today(layout: RowLayout, due: int, today: int) -> RowLayout {
    let is_past = match layout.previous {
        Some(day) => day < today,
        None => true,
    };
    if !layout.told && is_past && due > today {
        RowLayout { kinds: layout.kinds.push(RowKind::Day(today)), told: true, ..layout }
    } else {
        layout
    }
}

/// With the day of a task, where it is not that of the task before.
pub open spec fn with_day(layout: RowLayout, due: int, today: int) -> RowLayout {
    if layout.previous != Some(due) {
        RowLayout {
            kinds: layout.kinds.push(RowKind::Day(due)),
            previous: Some(due),
            told: layout.told || due == today,
        }
    } else {
        layout
    }
}

/// The rows of the first `n` tasks, each day in front of its tasks.
pub open spec fn laid(items: Seq<TaskItemModel>, n: int, today: int) -> RowLayout
    decreases n,
{
    if n <= 0 {
        RowLayout { kinds: Seq::empty(), previous: None, told: false }
    } else {
        let due = items[n - 1].due_date;
        let layout = with_day(with_today(laid(items, n - 1, today), due, today), due, today);
        RowLayout { kinds: layout.kinds.push(RowKind::Item(n - 1)), ..layout }
    }
}

/// The rows of all tasks, each day in front of its tasks, and today among the days.
pub open spec fn grouped(items: Seq<TaskItemModel>, today: int) -> Seq<RowKind> {
    let layout = laid(items, items.len() as int, today);
    if layout.told {
        layout.kinds
    } else {
        layout.kinds.push(RowKind::Day(today))
    }
}

/// A row on the screen.
#[derive(Debug)]
pub enum TaskRow {
    /// A day.
    Header { label: String, is_today: bool },
    /// Words in place of tasks.
    Note(String),
    /// A task: what is said of it, before and after what a search has found in its description.
    Task {
        color: Option<(u8, u8, u8)>,
        is_marked: bool,
        head: String,
        preview: Option<DescriptionMatchPreview>,
        tail: String,
    },
}

#[verifier::ext_equal]
pub enum RowModel {
    Header { label: Seq<char>, is_today: bool },
    Note(Seq<char>),
    Task {
        color: Option<(int, int, int)>,
        is_marked: bool,
        head: Seq<char>,
        preview: Option<PreviewModel>,
        tail: Seq<char>,
    },
}

/// A color, as mathematical values.
pub open spec fn color_value(color: Option<(u8, u8, u8)>) -> Option<(int, int, int)> {
    match color {
        Some((r, g, b)) => Some((r as int, g as int, b as int)),
        None => None,
    }
}

impl View for TaskRow {
    type V = RowModel;

    open spec fn view(&self) -> RowModel {
        match self {
            TaskRow::Header { label, is_today } => RowModel::Header {
                label: label@,
                is_today: *is_today,
            },
            TaskRow::Note(text) => RowModel::Note(text@),
            TaskRow::Task { color, is_marked, head, preview, tail } => RowModel::Task {
                color: color_value(*color),
                is_marked: *is_marked,
                head: head@,
                preview: optional(*preview),
                tail: tail@,
            },
        }
    }
}

/// The row of a day.
pub open spec fn header_row(day: int, today: int) -> RowModel {
    RowModel::Header {
        label: if day == today {
            day_text(day) + " -- TODAY"@
        } else {
            day_text(day)
        },
        is_today: day == today,
    }
}

/// What is said of a task before its description.
pub open spec fn row_head(item: TaskItemModel) -> Seq<char> {
    (if item.completed {
        "[x]"@
    } else {
        "[ ]"@
    }) + " "@ + fitted(shown_text(item.title), 22) + " | "@ + fitted(item.list_name, 16) + " | "@
}

/// What is said of a task after its description.
pub open spec fn row_tail(item: TaskItemModel) -> Seq<char> {
    "est:"@ + padded_left(decimal(item.estimated_minutes as nat), 4) + "h actual:"@ + padded_left(
        decimal(item.actual_minutes as nat),
        4,
    ) + "h left:"@ + padded_left(signed_decimal(item.time_left), 4) + "h"@
}

/// The row of a task. Where a search is shown, so is what it has found in the description.
pub open spec fn item_row(
    item: TaskItemModel,
    marked: Seq<TaskKey>,
    search: Option<Seq<char>>,
) -> RowModel {
    RowModel::Task {
        color: parsed_color(item.list_color_hex),
        is_marked: marked.contains(item.key),
        head: row_head(item),
        preview: match search {
            Some(query) => preview_of(item.description, query),
            None => None,
        },
        tail: row_tail(item),
    }
}

pub open spec fn kind_row(
    kind: RowKind,
    items: Seq<TaskItemModel>,
    marked: Seq<TaskKey>,
    search: Option<Seq<char>>,
    today: int,
) -> RowModel {
    match kind {
        RowKind::Day(day) => header_row(day, today),
        RowKind::Item(i) => item_row(items[i], marked, search),
    }
}

pub open spec fn kind_rows(
    kinds: Seq<RowKind>,
    items: Seq<TaskItemModel>,
    marked: Seq<TaskKey>,
    search: Option<Seq<char>>,
    today: int,
) -> Seq<RowModel> {
    kinds.map_values(|kind: RowKind| kind_row(kind, items, marked, search, today))
}

/// The rows of tasks without days.
pub open spec fn plain_rows(
    items: Seq<TaskItemModel>,
    marked: Seq<TaskKey>,
    search: Option<Seq<char>>,
) -> Seq<RowModel> {
    items.map_values(|item: TaskItemModel| item_row(item, marked, search))
}

/// The rows of tasks.
pub open spec fn task_rows(
    items: Seq<TaskItemModel>,
    sort_mode: TaskSortMode,
    marked: Seq<TaskKey>,
    search: Option<Seq<char>>,
    today: int,
) -> Seq<RowModel> {
    match sort_mode {
        TaskSortMode::DueDate => kind_rows(grouped(items, today), items, marked, search, today),
        TaskSortMode::TimeLeft => if items.len() == 0 {
            seq![RowModel::Note("No matching tasks"@)]
        } else {
            plain_rows(items, marked, search)
        },
    }
}

/// The row in which the task at a position stands.
pub open spec fn place_of(
    items: Seq<TaskItemModel>,
    sort_mode: TaskSortMode,
    i: int,
    today: int,
) -> int {
    match sort_mode {
        TaskSortMode::DueDate => laid(items, i + 1, today).kinds.len() - 1,
        TaskSortMode::TimeLeft => i,
    }
}

/// The row of the selected task, or of the last where the selection stands behind it.
pub open spec fn selected_place(
    items: Seq<TaskItemModel>,
    sort_mode: TaskSortMode,
    selected: usize,
    today: int,
) -> Option<int> {
    if items.len() == 0 {
        None
    } else {
        Some(place_of(items, sort_mode, clamped(selected, items.len()) as int, today))
    }
}

proof fn laid_grows(items: Seq<TaskItemModel>, m: int, n: int, today: int)
    requires
        0 <= m <= n,
    ensures
        laid(items, m, today).kinds.len() <= laid(items, n, today).kinds.len(),
        laid(items, n, today).kinds.take(laid(items, m, today).kinds.len() as int) == laid(
            items,
            m,
            today,
        ).kinds,
    decreases n,
{
    if m < n {
        laid_grows(items, m, n - 1, today);
        let before = laid(items, n - 1, today).kinds;
        let after = laid(items, n, today).kinds;
        let count = laid(items, m, today).kinds.len() as int;
        assert(after.take(count) == before.take(count));
    } else {
        assert(laid(items, m, today).kinds.take(laid(items, m, today).kinds.len() as int) == laid(
            items,
            m,
            today,
        ).kinds);
    }
}

/// A task stands in the row that is told to be its own.
pub proof fn task_stands_in_its_row(items: Seq<TaskItemModel>, i: int, today: int)
    requires
        0 <= i < items.len(),
    ensures
        0 <= place_of(items, TaskSortMode::DueDate, i, today) < grouped(items, today).len(),
        grouped(items, today)[place_of(items, TaskSortMode::DueDate, i, today)] == RowKind::Item(i),
{
    laid_grows(items, i + 1, items.len() as int, today);
    let part = laid(items, i + 1, today).kinds;
    let whole = laid(items, items.len() as int, today).kinds;
    assert(part.len() > 0 && part.last() == RowKind::Item(i));
    assert(whole.take(part.len() as int)[part.len() - 1] == part[part.len() - 1]);
}

/// The day that stands nearest above the end of the rows.
pub open spec fn last_day(kinds: Seq<RowKind>) -> Option<int>
    decreases kinds.len(),
{
    if kinds.len() == 0 {
        None
    } else {
        match kinds.last() {
            RowKind::Day(day) => Some(day),
            RowKind::Item(_) => last_day(kinds.drop_last()),
        }
    }
}

/// Tasks in the order of their due dates.
pub open spec fn is_by_due_date(items: Seq<TaskItemModel>) -> bool {
    forall|i: int, j: int|
        0 <= i < j < items.len() ==> (#[trigger] items[i]).due_date <= (
        #[trigger] items[j]).due_date
}

/// Each task stands below its day.
pub open spec fn are_below_their_days(kinds: Seq<RowKind>, items: Seq<TaskItemModel>) -> bool {
    forall|r: int|
        0 <= r < kinds.len() ==> match #[trigger] kinds[r] {
            RowKind::Item(i) => 0 <= i < items.len() && last_day(kinds.take(r)) == Some(
                items[i].due_date,
            ),
            RowKind::Day(_) => true,
        }
}

/// The days stand in their order, each once.
pub open spec fn days_grow(kinds: Seq<RowKind>) -> bool {
    forall|a: int, b: int|
        0 <= a < b < kinds.len() ==> match (#[trigger] kinds[a], #[trigger] kinds[b]) {
            (RowKind::Day(x), RowKind::Day(y)) => x < y,
            _ => true,
        }
}

/// No day stands there that is later than the given one.
pub open spec fn days_until(kinds: Seq<RowKind>, day: int) -> bool {
    forall|r: int|
        0 <= r < kinds.len() ==> match #[trigger] kinds[r] {
            RowKind::Day(x) => x <= day,
            RowKind::Item(_) => true,
        }
}

proof fn pushing_a_day(kinds: Seq<RowKind>, items: Seq<TaskItemModel>, day: int, last: int)
    requires
        are_below_their_days(kinds, items),
        days_grow(kinds),
        days_until(kinds, last),
        last < day,
    ensures
        are_below_their_days(kinds.push(RowKind::Day(day)), items),
        days_grow(kinds.push(RowKind::Day(day))),
        days_until(kinds.push(RowKind::Day(day)), day),
        last_day(kinds.push(RowKind::Day(day))) == Some(day),
{
    let all = kinds.push(RowKind::Day(day));
    assert forall|r: int| 0 <= r < all.len() implies match #[trigger] all[r] {
        RowKind::Item(i) => 0 <= i < items.len() && last_day(all.take(r)) == Some(
            items[i].due_date,
        ),
        RowKind::Day(_) => true,
    } by {
        if r < kinds.len() {
            assert(all.take(r) == kinds.take(r));
            assert(kinds[r] == all[r]);
        }
    }
    assert forall|a: int, b: int| 0 <= a < b < all.len() implies match (
        #[trigger] all[a],
        #[trigger] all[b],
    ) {
        (RowKind::Day(x), RowKind::Day(y)) => x < y,
        _ => true,
    } by {
        assert(all[a] == kinds[a]);
        if b < kinds.len() {
            assert(all[b] == kinds[b]);
        }
    }
    assert forall|r: int| 0 <= r < all.len() implies match #[trigger] all[r] {
        RowKind::Day(x) => x <= day,
        RowKind::Item(_) => true,
    } by {
        if r < kinds.len() {
            assert(kinds[r] == all[r]);
        }
    }
}

proof fn pushing_an_item(kinds: Seq<RowKind>, items: Seq<TaskItemModel>, i: int, last: int)
    requires
        are_below_their_days(kinds, items),
        days_grow(kinds),
        days_until(kinds, last),
        0 <= i < items.len(),
        last_day(kinds) == Some(items[i].due_date),
    ensures
        are_below_their_days(kinds.push(RowKind::Item(i)), items),
        days_grow(kinds.push(RowKind::Item(i))),
        days_until(kinds.push(RowKind::Item(i)), last),
        last_day(kinds.push(RowKind::Item(i))) == last_day(kinds),
{
    let all = kinds.push(RowKind::Item(i));
    assert(all.drop_last() == kinds);
    assert forall|r: int| 0 <= r < all.len() implies match #[trigger] all[r] {
        RowKind::Item(k) => 0 <= k < items.len() && last_day(all.take(r)) == Some(
            items[k].due_date,
        ),
        RowKind::Day(_) => true,
    } by {
        assert(all.take(r) == kinds.take(r));
        if r < kinds.len() {
            assert(kinds[r] == all[r]);
        } else {
            assert(kinds.take(r) == kinds);
        }
    }
    assert forall|a: int, b: int| 0 <= a < b < all.len() implies match (
        #[trigger] all[a],
        #[trigger] all[b],
    ) {
        (RowKind::Day(x), RowKind::Day(y)) => x < y,
        _ => true,
    } by {
        assert(all[a] == kinds[a]);
        if b < kinds.len() {
            assert(all[b] == kinds[b]);
        }
    }
    assert forall|r: int| 0 <= r < all.len() implies match #[trigger] all[r] {
        RowKind::Day(x) => x <= last,
        RowKind::Item(_) => true,
    } by {
        if r < kinds.len() {
            assert(kinds[r] == all[r]);
        }
    }
}

pub open spec fn has_day(kinds: Seq<RowKind>, day: int) -> bool {
    exists|r: int| 0 <= r < kinds.len() && #[trigger] kinds[r] == RowKind::Day(day)
}

proof fn laid_is_grouped(items: Seq<TaskItemModel>, n: int, today: int)
    requires
        is_by_due_date(items),
        0 <= n <= items.len(),
    ensures
        are_below_their_days(laid(items, n, today).kinds, items),
        days_grow(laid(items, n, today).kinds),
        laid(items, n, today).told ==> has_day(laid(items, n, today).kinds, today),
        n == 0 ==> laid(items, n, today).kinds.len() == 0 && laid(items, n, today).previous is None,
        n > 0 ==> laid(items, n, today).previous == Some(items[n - 1].due_date),
        n > 0 ==> days_until(laid(items, n, today).kinds, items[n - 1].due_date),
        n > 0 ==> last_day(laid(items, n, today).kinds) == Some(items[n - 1].due_date),
        n > 0 && !laid(items, n, today).told ==> items[n - 1].due_date < today,
        !laid(items, n, today).told ==> days_until(laid(items, n, today).kinds, today - 1),
    decreases n,
{
    if n > 0 {
        laid_is_grouped(items, n - 1, today);
        let before = laid(items, n - 1, today);
        let due = items[n - 1].due_date;
        let first = with_today(before, due, today);
        let second = with_day(first, due, today);
        if n > 1 {
            assert(items[n - 2].due_date <= items[n - 1].due_date);
        }
        let bottom = if n > 1 {
            items[n - 2].due_date
        } else {
            (if today < due {
                today
            } else {
                due
            }) - 1
        };
        assert(days_until(before.kinds, bottom));
        if first.told && !before.told {
            pushing_a_day(before.kinds, items, today, bottom);
            assert(first.kinds[first.kinds.len() - 1] == RowKind::Day(today));
        }
        let limit = if first.told && !before.told {
            today
        } else {
            bottom
        };
        assert(days_until(first.kinds, limit));
        if first.previous != Some(due) {
            pushing_a_day(first.kinds, items, due, limit);
            assert(second.kinds[second.kinds.len() - 1] == RowKind::Day(due));
            if has_day(first.kinds, today) {
                let r = choose|r: int|
                    0 <= r < first.kinds.len() && #[trigger] first.kinds[r] == RowKind::Day(today);
                assert(second.kinds[r] == RowKind::Day(today));
            }
        } else {
            assert(n > 1 && items[n - 2].due_date == due);
        }
        assert(last_day(second.kinds) == Some(due));
        assert(days_until(second.kinds, due));
        pushing_an_item(second.kinds, items, n - 1, due);
        let last = laid(items, n, today);
        if has_day(second.kinds, today) {
            let r = choose|r: int|
                0 <= r < second.kinds.len() && #[trigger] second.kinds[r] == RowKind::Day(today);
            assert(last.kinds[r] == RowKind::Day(today));
        }
        if !last.told {
            assert(due < today);
            assert(days_until(last.kinds, today - 1));
        }
    }
}

/// Tasks in the order of their due dates are grouped by days: each task stands below its day, the
/// days go from the earliest to the latest, each once, and today is one of them.
pub proof fn tasks_are_grouped_by_day(items: Seq<TaskItemModel>, today: int)
    requires
        is_by_due_date(items),
    ensures
        are_below_their_days(grouped(items, today), items),
        days_grow(grouped(items, today)),
        has_day(grouped(items, today), today),
{
    laid_is_grouped(items, items.len() as int, today);
    let layout = laid(items, items.len() as int, today);
    if !layout.told {
        pushing_a_day(layout.kinds, items, today, today - 1);
        assert(grouped(items, today)[layout.kinds.len() as int] == RowKind::Day(today));
    }
}

fn make_header(day: Date, today: Date) -> (res: TaskRow)
    ensures
        res@ == header_row(day@, today@),
{
    if day.same_day(&today) {
        TaskRow::Header { label: day.to_text().concat(" -- TODAY"), is_today: true }
    } else {
        TaskRow::Header { label: day.to_text(), is_today: false }
    }
}

fn make_head(item: &TaskViewItem) -> (res: String)
    ensures
        res@ == row_head(item@),
{
    let mark = if item.completed {
        "[x]"
    } else {
        "[ ]"
    };
    let title = empty_if_blank(item.title.as_str());
    mark.to_string().concat(" ").concat(fit_column(title.as_str(), 22).as_str()).concat(
        " | ",
    ).concat(fit_column(item.list_name.as_str(), 16).as_str()).concat(" | ")
}

fn make_tail(item: &TaskViewItem) -> (res: String)
    ensures
        res@ == row_tail(item@),
{
    let estimated = to_decimal(item.estimated_minutes as u64);
    let actual = to_decimal(item.actual_minutes as u64);
    let left = to_signed_decimal(item.time_left as i64);
    "est:".to_string().concat(pad_left(estimated.as_str(), 4).as_str()).concat("h actual:").concat(
        pad_left(actual.as_str(), 4).as_str(),
    ).concat("h left:").concat(pad_left(left.as_str(), 4).as_str()).concat("h")
}

fn is_marked(marked: &Vec<TaskKey>, key: TaskKey) -> (res: bool)
    ensures
        res == marked@.contains(key),
{
    let mut i: usize = 0;
    while i < marked.len()
        invariant
            i <= marked@.len(),
            forall|k: int| 0 <= k < i ==> #[trigger] marked@[k] != key,
        decreases marked.len() - i,
    {
        if marked[i] == key {
            return true;
        }
        i += 1;
    }
    false
}

/// What is searched for, if that is shown.
pub open spec fn search_value(search: Option<&str>) -> Option<Seq<char>> {
    match search {
        Some(query) => Some(query@),
        None => None,
    }
}

fn make_item_row(item: &TaskViewItem, marked: &Vec<TaskKey>, search: Option<&str>) -> (res: TaskRow)
    ensures
        res@ == item_row(item@, marked@, search_value(search)),
{
    TaskRow::Task {
        color: parse_hex_color(item.list_color_hex.as_str()),
        is_marked: is_marked(marked, item.key),
        head: make_head(item),
        preview: match search {
            Some(query) => description_match_preview(item.description.as_str(), query),
            None => None,
        },
        tail: make_tail(item),
    }
}

/// The rows of tasks, and the one that is selected.
#[derive(Debug)]
pub struct TaskRows {
    pub rows: Vec<TaskRow>,
    pub selected: Option<usize>,
}

pub open spec fn row_index(selected: Option<usize>) -> Option<int> {
    match selected {
        Some(i) => Some(i as int),
        None => None,
    }
}

fn plain_task_rows(
    items: &Vec<TaskViewItem>,
    marked: &Vec<TaskKey>,
    search: Option<&str>,
) -> (res: Vec<TaskRow>)
    ensures
        views(res@) == plain_rows(views(items@), marked@, search_value(search)),
{
    let ghost all = plain_rows(views(items@), marked@, search_value(search));
    let mut rows: Vec<TaskRow> = Vec::new();
    let mut i: usize = 0;
    while i < items.len()
        invariant
            i <= items@.len(),
            all == plain_rows(views(items@), marked@, search_value(search)),
            views(rows@) == all.take(i as int),
        decreases items.len() - i,
    {
        let row = make_item_row(&items[i], marked, search);
        proof {
            assert(views(items@)[i as int] == items@[i as int]@);
            assert(all.take(i as int).push(row@) == all.take(i + 1));
            views_push(rows@, row);
        }
        rows.push(row);
        i += 1;
    }
    assert(all.take(i as int) == all);
    rows
}

/// The rows of the tasks with their days, and the row of each task.
fn grouped_task_rows(
    items: &Vec<TaskViewItem>,
    marked: &Vec<TaskKey>,
    search: Option<&str>,
    today: Date,
) -> (res: (Vec<TaskRow>, Vec<usize>))
    ensures
        views(res.0@) == kind_rows(
            grouped(views(items@), today@),
            views(items@),
            marked@,
            search_value(search),
            today@,
        ),
        res.1@.len() == items@.len(),
        forall|k: int|
            0 <= k < items@.len() ==> #[trigger] res.1@[k] == place_of(
                views(items@),
                TaskSortMode::DueDate,
                k,
                today@,
            ),
{
    let ghost all = views(items@);
    let ghost shown = search_value(search);
    let ghost row_of = |kind: RowKind| kind_row(kind, all, marked@, shown, today@);
    let mut rows: Vec<TaskRow> = Vec::new();
    let mut places: Vec<usize> = Vec::new();
    let mut previous: Option<Date> = None;
    let mut told = false;
    let mut i: usize = 0;
    assert(views(rows@) == laid(all, 0, today@).kinds.map_values(row_of));
    while i < items.len()
        invariant
            i <= items@.len(),
            all == views(items@),
            shown == search_value(search),
            row_of == (|kind: RowKind| kind_row(kind, all, marked@, shown, today@)),
            views(rows@) == laid(all, i as int, today@).kinds.map_values(row_of),
            crate::task::optional_day(previous) == laid(all, i as int, today@).previous,
            told == laid(all, i as int, today@).told,
            places@.len() == i,
            forall|k: int|
                0 <= k < i ==> #[trigger] places@[k] == place_of(
                    all,
                    TaskSortMode::DueDate,
                    k,
                    today@,
                ),
        decreases items.len() - i,
    {
        let ghost layout = laid(all, i as int, today@);
        let due = items[i].due_date;
        assert(all[i as int] == items@[i as int]@);
        let is_past = match previous {
            Some(day) => day.is_before(&today),
            None => true,
        };
        let ghost first = with_today(layout, due@, today@);
        if !told && is_past && today.is_before(&due) {
            let row = make_header(today, today);
            proof {
                views_push(rows@, row);
                assert(layout.kinds.push(RowKind::Day(today@)).map_values(row_of)
                    == layout.kinds.map_values(row_of).push(row@));
            }
            rows.push(row);
            told = true;
        }
        assert(views(rows@) == first.kinds.map_values(row_of));
        let is_same = match previous {
            Some(day) => day.same_day(&due),
            None => false,
        };
        let ghost second = with_day(first, due@, today@);
        if !is_same {
            let row = make_header(due, today);
            proof {
                views_push(rows@, row);
                assert(first.kinds.push(RowKind::Day(due@)).map_values(row_of)
                    == first.kinds.map_values(row_of).push(row@));
            }
            rows.push(row);
            previous = Some(due);
            if due.same_day(&today) {
                told = true;
            }
        }
        assert(views(rows@) == second.kinds.map_values(row_of));
        let row = make_item_row(&items[i], marked, search);
        proof {
            views_push(rows@, row);
            assert(second.kinds.push(RowKind::Item(i as int)).map_values(row_of)
                == second.kinds.map_values(row_of).push(row@));
        }
        rows.push(row);
        places.push(rows.len() - 1);
        proof {
            let next = laid(all, i + 1, today@);
            assert(next.kinds == second.kinds.push(RowKind::Item(i as int)));
            assert(views(rows@).len() == rows@.len());
            assert(next.kinds.map_values(row_of).len() == next.kinds.len());
        }
        i += 1;
    }
    if !told {
        let row = make_header(today, today);
        proof {
            let kinds = laid(all, i as int, today@).kinds;
            views_push(rows@, row);
            assert(kinds.push(RowKind::Day(today@)).map_values(row_of) == kinds.map_values(
                row_of,
            ).push(row@));
        }
        rows.push(row);
    }
    (rows, places)
}

/// The rows of tasks, and the one of the task that is selected.
pub fn build_task_rows(
    items: &Vec<TaskViewItem>,
    sort_mode: TaskSortMode,
    marked: &Vec<TaskKey>,
    search: Option<&str>,
    selected: usize,
    today: Date,
) -> (res: TaskRows)
    ensures
        views(res.rows@) == task_rows(
            views(items@),
            sort_mode,
            marked@,
            search_value(search),
            today@,
        ),
        row_index(res.selected) == selected_place(views(items@), sort_mode, selected, today@),
{
    let ghost all = views(items@);
    assert(all.len() == items@.len());
    let index: usize = clamp_index(selected, items.len());
    match sort_mode {
        TaskSortMode::DueDate => {
            let (rows, places) = grouped_task_rows(items, marked, search, today);
            let place = if items.len() == 0 {
                None
            } else {
                Some(places[index])
            };
            TaskRows { rows, selected: place }
        },
        TaskSortMode::TimeLeft => {
            if items.len() == 0 {
                let note = TaskRow::Note("No matching tasks".to_string());
                let mut rows: Vec<TaskRow> = Vec::new();
                rows.push(note);
                assert(views(rows@)[0] == note@);
                assert(views(rows@) == task_rows(
                    all,
                    sort_mode,
                    marked@,
                    search_value(search),
                    today@,
                ));
                TaskRows { rows, selected: None }
            } else {
                TaskRows { rows: plain_task_rows(items, marked, search), selected: Some(index) }
            }
        },
    }
}

} // verus!
