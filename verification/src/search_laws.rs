//! Which tasks and lists a search finds, and in which order they are shown, told by their fields.

use vstd::multiset::*;
use vstd::prelude::*;
use vstd::seq_lib::*;

use crate::date::day_text;
use crate::editing::chosen_list;
use crate::item_laws::name_order_is_weak;
use crate::items::{
    id_of_just_name, id_of_name, is_just_named, is_named, is_shown, is_suggested, list_item_rows,
    list_items, list_names, list_order, list_order_is_weak, name_less, open_count, rows,
    shows_completed, suggestions, task_items, task_order, task_order_is_weak,
};
use crate::item_laws::rows_are_the_answers;
use crate::seqs::{filter_has, first_where_is_none, is_first_where};
use crate::sorting::{sorting_keeps, stable_sort, stable_sort_sorts, ties_with};
use crate::task::{ListItemModel, ListModel, ListSortMode, TaskItemModel, TaskModel, TaskSortMode};
use crate::text::{ascii_lower, has_substring, lex_less, lower, occurs_at, trimmed};

verus! {

/// A row holds what its task and the list of the task hold.
pub open spec fn shows_task(item: TaskItemModel, list: ListModel, task: TaskModel) -> bool {
    &&& item.key.list_id == list.id
    &&& item.key.task_id == task.id
    &&& item.list_name == list.name
    &&& item.list_priority == list.priority
    &&& item.list_color_hex == list.color_hex
    &&& item.title == task.title
    &&& item.description == task.description
    &&& item.due_date == task.due_date
    &&& item.estimated_minutes == task.estimated_minutes
    &&& item.actual_minutes == task.actual_minutes
    &&& item.completed == task.completed
    &&& i32::MIN <= task.estimated_minutes - task.actual_minutes <= i32::MAX ==> item.time_left
        == task.estimated_minutes - task.actual_minutes
}

/// One of the four texts of a task holds what is searched for, all in lower case: its title, its
/// description, the name of its list, or its due date.
pub open spec fn holds_query(query: Seq<char>, list: ListModel, task: TaskModel) -> bool {
    let needle = lower(trimmed(query));
    ||| has_substring(lower(task.title), needle)
    ||| has_substring(lower(task.description), needle)
    ||| has_substring(lower(list.name), needle)
    ||| has_substring(day_text(task.due_date), needle)
}

proof fn an_empty_text_is_held(hay: Seq<char>, needle: Seq<char>)
    requires
        needle.len() == 0,
    ensures
        has_substring(hay, needle),
{
    assert(hay.subrange(0, 0) == needle);
    assert(occurs_at(hay, needle, 0));
}

/// A task has its row among those that are shown just where its list is asked for, it is open or
/// completed tasks are shown, and what is searched for stands anywhere in its title, its
/// description, the name of its list or its due date, upper and lower case not told apart. By due
/// date completed tasks are shown if so chosen; by time left they are always shown.
pub proof fn a_search_looks_into_four_texts(
    lists: Seq<ListModel>,
    only: Option<u64>,
    query: Seq<char>,
    sort_mode: TaskSortMode,
    reversed: bool,
    show_completed: bool,
    i: int,
    j: int,
)
    requires
        0 <= i < lists.len(),
        0 <= j < lists[i].tasks.len(),
    ensures
        ({
            let list = lists[i];
            let task = list.tasks[j];
            let items = task_items(lists, only, query, sort_mode, reversed, show_completed);
            let is_wanted = only is None || only == Some(list.id);
            let may_show = !task.completed || sort_mode == TaskSortMode::TimeLeft
                || show_completed;
            &&& is_wanted && may_show && holds_query(query, list, task) ==> exists|item:
                TaskItemModel| #[trigger]
                items.contains(item) && shows_task(item, list, task)
        }),
{
    let list = lists[i];
    let task = list.tasks[j];
    let needle = lower(trimmed(query));
    let item = crate::items::task_item(list, task);
    rows_are_the_answers(lists, only, query, sort_mode, reversed, show_completed, item);
    let show = shows_completed(sort_mode, show_completed);
    if (only is None || only == Some(list.id)) && (!task.completed || sort_mode
        == TaskSortMode::TimeLeft || show_completed) && holds_query(query, list, task) {
        assert(crate::item_laws::is_row_of(lists, only, query, show, item, i, j));
        assert(shows_task(item, list, task));
    }
}

/// Every row that is shown is that of a task of a list that is asked for, which is open unless
/// completed tasks are shown, and of which one of the four texts holds what is searched for.
pub proof fn every_row_was_searched_for(
    lists: Seq<ListModel>,
    only: Option<u64>,
    query: Seq<char>,
    sort_mode: TaskSortMode,
    reversed: bool,
    show_completed: bool,
    item: TaskItemModel,
)
    requires
        task_items(lists, only, query, sort_mode, reversed, show_completed).contains(item),
    ensures
        exists|i: int, j: int|
            #![trigger lists[i].tasks[j]]
            0 <= i < lists.len() && 0 <= j < lists[i].tasks.len() && shows_task(
                item,
                lists[i],
                lists[i].tasks[j],
            ) && holds_query(query, lists[i], lists[i].tasks[j]) && (only is None || only == Some(
                lists[i].id,
            )) && (!lists[i].tasks[j].completed || sort_mode == TaskSortMode::TimeLeft
                || show_completed),
{
    rows_are_the_answers(lists, only, query, sort_mode, reversed, show_completed, item);
    let show = shows_completed(sort_mode, show_completed);
    let (i, j) = choose|i: int, j: int|
        crate::item_laws::is_row_of(lists, only, query, show, item, i, j);
    let needle = lower(trimmed(query));
    if needle.len() == 0 {
        an_empty_text_is_held(lower(lists[i].tasks[j].title), needle);
    }
    assert(shows_task(item, lists[i], lists[i].tasks[j]));
}

/// The tasks of the lists that are asked for, one list after the other, of which a row is shown.
pub open spec fn shown_tasks(
    lists: Seq<ListModel>,
    only: Option<u64>,
    query: Seq<char>,
    with_completed: bool,
) -> Seq<(ListModel, TaskModel)>
    decreases lists.len(),
{
    if lists.len() == 0 {
        Seq::empty()
    } else {
        let before = shown_tasks(lists.drop_last(), only, query, with_completed);
        let list = lists.last();
        if only is None || only == Some(list.id) {
            before + list.tasks.filter(
                |task: TaskModel|
                    (with_completed || !task.completed) && holds_query(query, list, task),
            ).map_values(|task: TaskModel| (list, task))
        } else {
            before
        }
    }
}

proof fn rows_are_those_of_tasks(
    lists: Seq<ListModel>,
    only: Option<u64>,
    query: Seq<char>,
    show: bool,
)
    ensures
        rows(lists, only, query, show).len() == shown_tasks(lists, only, query, show).len(),
        forall|k: int|
            0 <= k < rows(lists, only, query, show).len() ==> shows_task(
                #[trigger] rows(lists, only, query, show)[k],
                shown_tasks(lists, only, query, show)[k].0,
                shown_tasks(lists, only, query, show)[k].1,
            ),
    decreases lists.len(),
{
    if lists.len() > 0 {
        rows_are_those_of_tasks(lists.drop_last(), only, query, show);
        let list = lists.last();
        let p = is_shown(query, show, list);
        let q = |task: TaskModel|
            (show || !task.completed) && holds_query(query, list, task);
        assert forall|task: TaskModel| #[trigger] p(task) == q(task) by {
            let needle = lower(trimmed(query));
            if needle.len() == 0 {
                an_empty_text_is_held(lower(task.title), needle);
            }
        }
        assert(p =~= q);
        let all = rows(lists, only, query, show);
        let others = rows(lists.drop_last(), only, query, show);
        let told = shown_tasks(lists, only, query, show);
        assert forall|k: int| 0 <= k < all.len() implies shows_task(
            #[trigger] all[k],
            told[k].0,
            told[k].1,
        ) by {
            if k < others.len() {
                assert(all[k] == others[k]);
            }
        }
    }
}

/// There is one row for each task that is shown, and no more.
pub proof fn each_task_has_one_row(
    lists: Seq<ListModel>,
    only: Option<u64>,
    query: Seq<char>,
    sort_mode: TaskSortMode,
    reversed: bool,
    show_completed: bool,
)
    ensures
        task_items(lists, only, query, sort_mode, reversed, show_completed).len() == shown_tasks(
            lists,
            only,
            query,
            sort_mode == TaskSortMode::TimeLeft || show_completed,
        ).len(),
{
    let show = shows_completed(sort_mode, show_completed);
    rows_are_those_of_tasks(lists, only, query, show);
    task_order_is_weak(sort_mode, reversed);
    stable_sort_sorts(rows(lists, only, query, show), task_order(sort_mode, reversed));
}

/// One row comes before another by due date: it is due earlier, or on the same day in a list of the
/// lesser priority number, or then by its title in lower case.
pub open spec fn is_due_before(a: TaskItemModel, b: TaskItemModel) -> bool {
    ||| a.due_date < b.due_date
    ||| a.due_date == b.due_date && a.list_priority < b.list_priority
    ||| a.due_date == b.due_date && a.list_priority == b.list_priority && lex_less(
        lower(a.title),
        lower(b.title),
    )
}

/// One row comes before another by time left: more is left, or then by its title in lower case.
pub open spec fn has_more_left(a: TaskItemModel, b: TaskItemModel) -> bool {
    let x = a.estimated_minutes - a.actual_minutes;
    let y = b.estimated_minutes - b.actual_minutes;
    ||| x > y
    ||| x == y && lex_less(lower(a.title), lower(b.title))
}

/// Rows stand in their order, one that comes before another in front of it: by due date, then the
/// priority of the list, then the title; or by the time left, then the title, and this turned round
/// where so chosen.
pub proof fn rows_stand_in_their_order(
    lists: Seq<ListModel>,
    only: Option<u64>,
    query: Seq<char>,
    reversed: bool,
    show_completed: bool,
    a: int,
    b: int,
)
    ensures
        ({
            let items = task_items(
                lists,
                only,
                query,
                TaskSortMode::DueDate,
                reversed,
                show_completed,
            );
            0 <= a < b < items.len() ==> !is_due_before(items[b], items[a])
        }),
        ({
            let items = task_items(
                lists,
                only,
                query,
                TaskSortMode::TimeLeft,
                reversed,
                show_completed,
            );
            0 <= a < b < items.len() ==> if reversed {
                !has_more_left(items[a], items[b])
            } else {
                !has_more_left(items[b], items[a])
            }
        }),
{
    let due = TaskSortMode::DueDate;
    let left = TaskSortMode::TimeLeft;
    task_order_is_weak(due, reversed);
    task_order_is_weak(left, reversed);
    let by_due = rows(lists, only, query, shows_completed(due, show_completed));
    let by_left = rows(lists, only, query, shows_completed(left, show_completed));
    stable_sort_sorts(by_due, task_order(due, reversed));
    stable_sort_sorts(by_left, task_order(left, reversed));
    let x = stable_sort(by_due, task_order(due, reversed));
    let y = stable_sort(by_left, task_order(left, reversed));
    if 0 <= a < b < x.len() {
        assert(!task_order(due, reversed)(x[b], x[a]));
    }
    if 0 <= a < b < y.len() {
        assert(!task_order(left, reversed)(y[b], y[a]));
    }
}

/// Rows of which neither comes before the other keep the order of their lists and tasks.
pub proof fn equal_rows_keep_their_order(
    lists: Seq<ListModel>,
    only: Option<u64>,
    query: Seq<char>,
    reversed: bool,
    show_completed: bool,
    item: TaskItemModel,
)
    ensures
        task_items(lists, only, query, TaskSortMode::DueDate, reversed, show_completed).filter(
            |other: TaskItemModel| !is_due_before(item, other) && !is_due_before(other, item),
        ) == rows(lists, only, query, show_completed).filter(
            |other: TaskItemModel| !is_due_before(item, other) && !is_due_before(other, item),
        ),
        task_items(lists, only, query, TaskSortMode::TimeLeft, reversed, show_completed).filter(
            |other: TaskItemModel| !has_more_left(item, other) && !has_more_left(other, item),
        ) == rows(lists, only, query, true).filter(
            |other: TaskItemModel| !has_more_left(item, other) && !has_more_left(other, item),
        ),
{
    let due = TaskSortMode::DueDate;
    let left = TaskSortMode::TimeLeft;
    task_order_is_weak(due, reversed);
    task_order_is_weak(left, reversed);
    let by_due = rows(lists, only, query, show_completed);
    let by_left = rows(lists, only, query, true);
    stable_sort_sorts(by_due, task_order(due, reversed));
    stable_sort_sorts(by_left, task_order(left, reversed));
    let p = |other: TaskItemModel| !is_due_before(item, other) && !is_due_before(other, item);
    let q = |other: TaskItemModel| !has_more_left(item, other) && !has_more_left(other, item);
    assert(ties_with(item, task_order(due, reversed)) =~= p);
    assert(ties_with(item, task_order(left, reversed)) =~= q);
}

/// Before they are sorted, rows stand list after list and in each list task after task.
pub proof fn unsorted_rows_follow_lists_and_tasks(
    lists: Seq<ListModel>,
    only: Option<u64>,
    query: Seq<char>,
    with_completed: bool,
    k: int,
)
    ensures
        rows(lists, only, query, with_completed).len() == shown_tasks(
            lists,
            only,
            query,
            with_completed,
        ).len(),
        0 <= k < rows(lists, only, query, with_completed).len() ==> shows_task(
            rows(lists, only, query, with_completed)[k],
            shown_tasks(lists, only, query, with_completed)[k].0,
            shown_tasks(lists, only, query, with_completed)[k].1,
        ),
{
    rows_are_those_of_tasks(lists, only, query, with_completed);
}

/// How many of the first `n` tasks are completed.
pub open spec fn completed_among(tasks: Seq<TaskModel>, n: int) -> nat
    decreases n,
{
    if n <= 0 {
        0
    } else {
        completed_among(tasks, n - 1) + (if tasks[n - 1].completed {
            1nat
        } else {
            0nat
        })
    }
}

/// The completed tasks and the open ones make up all.
pub proof fn open_and_completed_make_up_all(tasks: Seq<TaskModel>)
    ensures
        open_count(tasks) + completed_among(tasks, tasks.len() as int) == tasks.len(),
    decreases tasks.len(),
{
    reveal(Seq::filter);
    if tasks.len() > 0 {
        let rest = tasks.drop_last();
        open_and_completed_make_up_all(rest);
        completed_among_front(tasks, rest, rest.len() as int);
    }
}

pub proof fn completed_among_front(a: Seq<TaskModel>, b: Seq<TaskModel>, n: int)
    requires
        0 <= n <= a.len(),
        n <= b.len(),
        forall|k: int| 0 <= k < n ==> #[trigger] a[k] == b[k],
    ensures
        completed_among(a, n) == completed_among(b, n),
    decreases n,
{
    if n > 0 {
        completed_among_front(a, b, n - 1);
        assert(a[n - 1] == b[n - 1]);
    }
}

/// A row of a list holds what the list holds, how many tasks it has and how many of them are open.
pub open spec fn shows_list(item: ListItemModel, list: ListModel) -> bool {
    &&& item.list_id == list.id
    &&& item.name == list.name
    &&& item.priority == list.priority
    &&& item.color_hex == list.color_hex
    &&& item.total_items == list.tasks.len()
    &&& item.remaining_items + completed_among(list.tasks, list.tasks.len() as int)
        == list.tasks.len()
}

/// Each list has one row, with its counts, and every row is that of a list.
pub proof fn each_list_has_one_row(
    lists: Seq<ListModel>,
    sort_mode: ListSortMode,
    i: int,
    item: ListItemModel,
)
    ensures
        list_items(lists, sort_mode).len() == lists.len(),
        0 <= i < lists.len() ==> exists|row: ListItemModel| #[trigger]
            list_items(lists, sort_mode).contains(row) && shows_list(row, lists[i]),
        list_items(lists, sort_mode).contains(item) ==> exists|k: int|
            0 <= k < lists.len() && shows_list(item, #[trigger] lists[k]),
{
    let unsorted = list_item_rows(lists);
    list_order_is_weak(sort_mode);
    stable_sort_sorts(unsorted, list_order(sort_mode));
    if 0 <= i < lists.len() {
        open_and_completed_make_up_all(lists[i].tasks);
        assert(unsorted.contains(unsorted[i]));
        sorting_keeps(unsorted, list_order(sort_mode), unsorted[i]);
        assert(shows_list(unsorted[i], lists[i]));
    }
    if list_items(lists, sort_mode).contains(item) {
        sorting_keeps(unsorted, list_order(sort_mode), item);
        let k = choose|k: int| 0 <= k < unsorted.len() && unsorted[k] == item;
        open_and_completed_make_up_all(lists[k].tasks);
        assert(shows_list(item, lists[k]));
    }
}

/// Rows of lists stand in their order: by the number of open tasks, most of them first, or by the
/// priority number, the least first; then by the name in lower case. Those that tie keep the order
/// of the lists.
pub proof fn lists_stand_in_their_order(lists: Seq<ListModel>, a: int, b: int, item: ListItemModel)
    ensures
        ({
            let items = list_items(lists, ListSortMode::RemainingCount);
            0 <= a < b < items.len() ==> items[a].remaining_items >= items[b].remaining_items && (
            items[a].remaining_items == items[b].remaining_items ==> !lex_less(
                lower(items[b].name),
                lower(items[a].name),
            ))
        }),
        ({
            let items = list_items(lists, ListSortMode::Priority);
            0 <= a < b < items.len() ==> items[a].priority <= items[b].priority && (
            items[a].priority == items[b].priority ==> !lex_less(
                lower(items[b].name),
                lower(items[a].name),
            ))
        }),
        list_items(lists, ListSortMode::Priority).filter(
            |other: ListItemModel|
                other.priority == item.priority && !lex_less(lower(item.name), lower(other.name))
                    && !lex_less(lower(other.name), lower(item.name)),
        ) == list_item_rows(lists).filter(
            |other: ListItemModel|
                other.priority == item.priority && !lex_less(lower(item.name), lower(other.name))
                    && !lex_less(lower(other.name), lower(item.name)),
        ),
        list_items(lists, ListSortMode::RemainingCount).filter(
            |other: ListItemModel|
                other.remaining_items == item.remaining_items && !lex_less(
                    lower(item.name),
                    lower(other.name),
                ) && !lex_less(lower(other.name), lower(item.name)),
        ) == list_item_rows(lists).filter(
            |other: ListItemModel|
                other.remaining_items == item.remaining_items && !lex_less(
                    lower(item.name),
                    lower(other.name),
                ) && !lex_less(lower(other.name), lower(item.name)),
        ),
        list_item_rows(lists).len() == lists.len(),
        0 <= a < lists.len() ==> shows_list(list_item_rows(lists)[a], lists[a]),
{
    let unsorted = list_item_rows(lists);
    let count = ListSortMode::RemainingCount;
    let rank = ListSortMode::Priority;
    list_order_is_weak(count);
    list_order_is_weak(rank);
    stable_sort_sorts(unsorted, list_order(count));
    stable_sort_sorts(unsorted, list_order(rank));
    let x = list_items(lists, count);
    let y = list_items(lists, rank);
    if 0 <= a < b < x.len() {
        assert(!list_order(count)(x[b], x[a]));
    }
    if 0 <= a < b < y.len() {
        assert(!list_order(rank)(y[b], y[a]));
    }
    if 0 <= a < lists.len() {
        open_and_completed_make_up_all(lists[a].tasks);
    }
    let p = |other: ListItemModel|
        other.priority == item.priority && !lex_less(lower(item.name), lower(other.name))
            && !lex_less(lower(other.name), lower(item.name));
    let q = |other: ListItemModel|
        other.remaining_items == item.remaining_items && !lex_less(
            lower(item.name),
            lower(other.name),
        ) && !lex_less(lower(other.name), lower(item.name));
    assert(ties_with(item, list_order(rank)) =~= p);
    assert(ties_with(item, list_order(count)) =~= q);
}

/// A name is suggested as often as lists have it, just where the input stands in it, upper and
/// lower case not told apart; the names stand in the order of their characters.
pub proof fn names_that_hold_the_input_are_suggested(
    lists: Seq<ListModel>,
    input: Seq<char>,
    name: Seq<char>,
    a: int,
    b: int,
)
    ensures
        suggestions(lists, input).contains(name) <==> has_substring(
            lower(name),
            lower(trimmed(input)),
        ) && exists|i: int| 0 <= i < lists.len() && (#[trigger] lists[i]).name == name,
        suggestions(lists, input).to_multiset() == lists.map_values(
            |list: ListModel| list.name,
        ).filter(
            |each: Seq<char>| has_substring(lower(each), lower(trimmed(input))),
        ).to_multiset(),
        0 <= a < b < suggestions(lists, input).len() ==> !lex_less(
            suggestions(lists, input)[b],
            suggestions(lists, input)[a],
        ),
{
    let needle = lower(trimmed(input));
    let names = list_names(lists);
    let p = is_suggested(input);
    let q = |each: Seq<char>| has_substring(lower(each), lower(trimmed(input)));
    assert forall|each: Seq<char>| #[trigger] p(each) == q(each) by {
        if needle.len() == 0 {
            an_empty_text_is_held(lower(each), needle);
        }
    }
    assert(p =~= q);
    assert(names =~= lists.map_values(|list: ListModel| list.name));
    name_order_is_weak();
    stable_sort_sorts(names.filter(p), name_less());
    sorting_keeps(names.filter(p), name_less(), name);
    filter_has(names, p, name);
    if names.contains(name) {
        let i = choose|i: int| 0 <= i < names.len() && names[i] == name;
        assert(lists[i].name == name);
    }
    if exists|i: int| 0 <= i < lists.len() && (#[trigger] lists[i]).name == name {
        let i = choose|i: int| 0 <= i < lists.len() && (#[trigger] lists[i]).name == name;
        assert(names[i] == name);
    }
    let all = suggestions(lists, input);
    if 0 <= a < b < all.len() {
        assert(!name_less()(all[b], all[a]));
    }
}

/// The list that a name leads to is the first that has it, the letters `A` to `Z` taken as `a` to
/// `z`, or the first that has just that name.
pub proof fn a_name_leads_to_the_first_list(lists: Seq<ListModel>, name: Seq<char>, i: int)
    ensures
        0 <= i < lists.len() && ascii_lower(lists[i].name) == ascii_lower(name) && (forall|k: int|
            0 <= k < i ==> ascii_lower((#[trigger] lists[k]).name) != ascii_lower(name))
            ==> id_of_name(lists, name) == Some(lists[i].id),
        (forall|k: int|
            0 <= k < lists.len() ==> ascii_lower((#[trigger] lists[k]).name) != ascii_lower(name))
            ==> id_of_name(lists, name) is None,
        0 <= i < lists.len() && lists[i].name == name && (forall|k: int|
            0 <= k < i ==> (#[trigger] lists[k]).name != name) ==> id_of_just_name(lists, name)
            == Some(lists[i].id),
        (forall|k: int| 0 <= k < lists.len() ==> (#[trigger] lists[k]).name != name)
            ==> id_of_just_name(lists, name) is None,
{
    let p = is_named(name);
    let q = is_just_named(name);
    if 0 <= i < lists.len() && ascii_lower(lists[i].name) == ascii_lower(name) && (forall|k: int|
        0 <= k < i ==> ascii_lower((#[trigger] lists[k]).name) != ascii_lower(name)) {
        assert(is_first_where(lists, p, i));
        crate::seqs::first_where_is(lists, p, i);
    }
    if forall|k: int|
        0 <= k < lists.len() ==> ascii_lower((#[trigger] lists[k]).name) != ascii_lower(name) {
        first_where_is_none(lists, p);
    }
    if 0 <= i < lists.len() && lists[i].name == name && (forall|k: int|
        0 <= k < i ==> (#[trigger] lists[k]).name != name) {
        assert(is_first_where(lists, q, i));
        crate::seqs::first_where_is(lists, q, i);
    }
    if forall|k: int| 0 <= k < lists.len() ==> (#[trigger] lists[k]).name != name {
        first_where_is_none(lists, q);
    }
}

/// The list that is chosen is the one with just the name of the suggestion at the place that is
/// selected, or where there is none, the one with the name that was typed.
pub proof fn the_selected_suggestion_is_chosen(
    lists: Seq<ListModel>,
    input: Seq<char>,
    index: usize,
)
    ensures
        chosen_list(lists, input, index) == (if index < suggestions(lists, input).len() {
            id_of_just_name(lists, suggestions(lists, input)[index as int])
        } else {
            id_of_name(lists, trimmed(input))
        }),
{
}

} // verus!
