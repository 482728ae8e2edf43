//! What holds of the rows that are shown, whatever is searched for and however they are sorted.

use vstd::multiset::*;
use vstd::prelude::*;
use vstd::seq_lib::*;
use vstd::utf8::is_ascii_chars;

use crate::editing::chosen_list;
use crate::items::{
    answers, is_just_named, is_shown, is_suggested, list_item, list_item_rows, list_items,
    list_names, list_order, list_order_is_weak, list_rows, name_less, rows, shows_completed,
    suggestions, task_item, task_items, task_order, task_order_is_weak,
};
use crate::rows::{
    are_below_their_days, days_grow, grouped, has_day, is_by_due_date, tasks_are_grouped_by_day,
};
use crate::seqs::{filter_has, first_where, first_where_exists};
use crate::sorting::{is_weak_order, sorting_keeps, stable_sort, stable_sort_sorts};
use crate::task::{
    ListItemModel, ListModel, ListSortMode, TaskItemModel, TaskModel, TaskSortMode,
};
use crate::text::{
    ascii_lower, is_white_space, lex_less, lex_less_irreflexive, lex_less_total,
    lex_less_transitive, lower, trimmed,
};

verus! {

/// The task at a position of a list is one that is asked for, and `item` is its row.
pub open spec fn is_row_of(
    lists: Seq<ListModel>,
    only: Option<u64>,
    query: Seq<char>,
    show_completed: bool,
    item: TaskItemModel,
    i: int,
    j: int,
) -> bool {
    &&& 0 <= i < lists.len()
    &&& 0 <= j < lists[i].tasks.len()
    &&& only is None || only == Some(lists[i].id)
    &&& show_completed || !lists[i].tasks[j].completed
    &&& answers(query, lists[i], lists[i].tasks[j])
    &&& item == task_item(lists[i], lists[i].tasks[j])
}

proof fn list_rows_have(
    query: Seq<char>,
    show_completed: bool,
    list: ListModel,
    item: TaskItemModel,
)
    ensures
        list_rows(query, show_completed, list).contains(item) <==> exists|j: int|
            #![trigger list.tasks[j]]
            0 <= j < list.tasks.len() && is_shown(query, show_completed, list)(list.tasks[j])
                && item == task_item(list, list.tasks[j]),
{
    let shown = is_shown(query, show_completed, list);
    let kept = list.tasks.filter(shown);
    let all = list_rows(query, show_completed, list);
    if all.contains(item) {
        let k = choose|k: int| 0 <= k < all.len() && all[k] == item;
        filter_has(list.tasks, shown, kept[k]);
        assert(kept.contains(kept[k]));
        let j = choose|j: int| 0 <= j < list.tasks.len() && list.tasks[j] == kept[k];
        assert(shown(list.tasks[j]) && item == task_item(list, list.tasks[j]));
    }
    if exists|j: int|
        #![trigger list.tasks[j]]
        0 <= j < list.tasks.len() && shown(list.tasks[j]) && item == task_item(
            list,
            list.tasks[j],
        ) {
        let j = choose|j: int|
            #![trigger list.tasks[j]]
            0 <= j < list.tasks.len() && shown(list.tasks[j]) && item == task_item(
                list,
                list.tasks[j],
            );
        filter_has(list.tasks, shown, list.tasks[j]);
        assert(list.tasks.contains(list.tasks[j]));
        let k = choose|k: int| 0 <= k < kept.len() && kept[k] == list.tasks[j];
        assert(all[k] == item);
    }
}

proof fn rows_have(
    lists: Seq<ListModel>,
    only: Option<u64>,
    query: Seq<char>,
    show_completed: bool,
    item: TaskItemModel,
)
    ensures
        rows(lists, only, query, show_completed).contains(item) <==> exists|i: int, j: int|
            is_row_of(lists, only, query, show_completed, item, i, j),
    decreases lists.len(),
{
    if lists.len() > 0 {
        let rest = lists.drop_last();
        let last = lists.last();
        rows_have(rest, only, query, show_completed, item);
        list_rows_have(query, show_completed, last, item);
        let before = rows(rest, only, query, show_completed);
        let own = list_rows(query, show_completed, last);
        let all = rows(lists, only, query, show_completed);
        if all.contains(item) {
            let k = choose|k: int| 0 <= k < all.len() && all[k] == item;
            if k < before.len() {
                assert(before[k] == item);
                let (i, j) = choose|i: int, j: int|
                    is_row_of(rest, only, query, show_completed, item, i, j);
                assert(rest[i] == lists[i]);
                assert(is_row_of(lists, only, query, show_completed, item, i, j));
            } else {
                assert(own[k - before.len()] == item);
                let j = choose|j: int|
                    #![trigger last.tasks[j]]
                    0 <= j < last.tasks.len() && is_shown(query, show_completed, last)(
                        last.tasks[j],
                    ) && item == task_item(last, last.tasks[j]);
                assert(is_row_of(
                    lists,
                    only,
                    query,
                    show_completed,
                    item,
                    lists.len() - 1,
                    j,
                ));
            }
        }
        if exists|i: int, j: int| is_row_of(lists, only, query, show_completed, item, i, j) {
            let (i, j) = choose|i: int, j: int|
                is_row_of(lists, only, query, show_completed, item, i, j);
            if i < rest.len() {
                assert(rest[i] == lists[i]);
                assert(is_row_of(rest, only, query, show_completed, item, i, j));
                let k = choose|k: int| 0 <= k < before.len() && before[k] == item;
                assert(all[k] == item);
            } else {
                assert(is_shown(query, show_completed, last)(last.tasks[j]));
                assert(own.contains(item));
                let k = choose|k: int| 0 <= k < own.len() && own[k] == item;
                assert(all[before.len() + k] == item);
            }
        }
    }
}

/// The rows are those of the tasks that answer the query, in the lists that are asked for, without
/// the completed ones where these are hidden: all of them, and no others.
pub proof fn rows_are_the_answers(
    lists: Seq<ListModel>,
    only: Option<u64>,
    query: Seq<char>,
    sort_mode: TaskSortMode,
    time_left_reversed: bool,
    show_completed_in_due_mode: bool,
    item: TaskItemModel,
)
    ensures
        task_items(
            lists,
            only,
            query,
            sort_mode,
            time_left_reversed,
            show_completed_in_due_mode,
        ).contains(item) <==> exists|i: int, j: int|
            is_row_of(
                lists,
                only,
                query,
                shows_completed(sort_mode, show_completed_in_due_mode),
                item,
                i,
                j,
            ),
{
    let show = shows_completed(sort_mode, show_completed_in_due_mode);
    task_order_is_weak(sort_mode, time_left_reversed);
    sorting_keeps(
        rows(lists, only, query, show),
        task_order(sort_mode, time_left_reversed),
        item,
    );
    rows_have(lists, only, query, show, item);
}

/// Without a query every task is found.
pub proof fn every_task_answers_a_blank_query(query: Seq<char>, list: ListModel, task: TaskModel)
    requires
        trimmed(query).len() == 0,
    ensures
        answers(query, list, task),
{
    assert(is_ascii_chars(trimmed(query)));
}

/// By due date, rows go from the earliest day to the latest; on one day, from the highest priority
/// of a list to the lowest; and then by title.
pub proof fn due_date_order(
    lists: Seq<ListModel>,
    only: Option<u64>,
    query: Seq<char>,
    time_left_reversed: bool,
    show_completed_in_due_mode: bool,
)
    ensures
        ({
            let items = task_items(
                lists,
                only,
                query,
                TaskSortMode::DueDate,
                time_left_reversed,
                show_completed_in_due_mode,
            );
            &&& is_by_due_date(items)
            &&& forall|i: int, j: int|
                0 <= i < j < items.len() && (#[trigger] items[i]).due_date == (
                #[trigger] items[j]).due_date ==> items[i].list_priority < items[j].list_priority
                    || (items[i].list_priority == items[j].list_priority && !lex_less(
                    lower(items[j].title),
                    lower(items[i].title),
                ))
        }),
{
    let mode = TaskSortMode::DueDate;
    let less = task_order(mode, time_left_reversed);
    task_order_is_weak(mode, time_left_reversed);
    let unsorted = rows(lists, only, query, shows_completed(mode, show_completed_in_due_mode));
    stable_sort_sorts(unsorted, less);
    let items = stable_sort(unsorted, less);
    assert forall|i: int, j: int| 0 <= i < j < items.len() implies (
    #[trigger] items[i]).due_date <= (#[trigger] items[j]).due_date by {
        assert(!less(items[j], items[i]));
    }
    assert forall|i: int, j: int|
        0 <= i < j < items.len() && (#[trigger] items[i]).due_date == (
        #[trigger] items[j]).due_date implies items[i].list_priority < items[j].list_priority || (
    items[i].list_priority == items[j].list_priority && !lex_less(
        lower(items[j].title),
        lower(items[i].title),
    )) by {
        assert(!less(items[j], items[i]));
    }
}

/// The estimated time less the time spent.
pub open spec fn hours_left(item: TaskItemModel) -> int {
    item.estimated_minutes - item.actual_minutes
}

/// By time left, rows go from the most time left, estimated less spent, to the least, or turned
/// round, from the least to the most.
pub proof fn time_left_order(
    lists: Seq<ListModel>,
    only: Option<u64>,
    query: Seq<char>,
    time_left_reversed: bool,
    show_completed_in_due_mode: bool,
)
    ensures
        ({
            let items = task_items(
                lists,
                only,
                query,
                TaskSortMode::TimeLeft,
                time_left_reversed,
                show_completed_in_due_mode,
            );
            forall|i: int, j: int|
                0 <= i < j < items.len() ==> if time_left_reversed {
                    hours_left(#[trigger] items[i]) <= hours_left(#[trigger] items[j])
                } else {
                    hours_left(items[i]) >= hours_left(items[j])
                }
        }),
{
    let mode = TaskSortMode::TimeLeft;
    let less = task_order(mode, time_left_reversed);
    task_order_is_weak(mode, time_left_reversed);
    let unsorted = rows(lists, only, query, shows_completed(mode, show_completed_in_due_mode));
    stable_sort_sorts(unsorted, less);
    let items = stable_sort(unsorted, less);
    assert forall|i: int, j: int| 0 <= i < j < items.len() implies if time_left_reversed {
        hours_left(#[trigger] items[i]) <= hours_left(#[trigger] items[j])
    } else {
        hours_left(items[i]) >= hours_left(items[j])
    } by {
        assert(!less(items[j], items[i]));
    }
}

/// Every list has its row, and there are no others.
pub proof fn each_list_has_its_row(
    lists: Seq<ListModel>,
    sort_mode: ListSortMode,
    item: ListItemModel,
)
    ensures
        list_items(lists, sort_mode).len() == lists.len(),
        list_items(lists, sort_mode).contains(item) <==> exists|i: int|
            #![trigger lists[i]]
            0 <= i < lists.len() && item == list_item(lists[i]),
{
    list_order_is_weak(sort_mode);
    let unsorted = list_item_rows(lists);
    stable_sort_sorts(unsorted, list_order(sort_mode));
    sorting_keeps(unsorted, list_order(sort_mode), item);
    if unsorted.contains(item) {
        let i = choose|i: int| 0 <= i < unsorted.len() && unsorted[i] == item;
        assert(item == list_item(lists[i]));
    }
    if exists|i: int| #![trigger lists[i]] 0 <= i < lists.len() && item == list_item(lists[i]) {
        let i = choose|i: int|
            #![trigger lists[i]]
            0 <= i < lists.len() && item == list_item(lists[i]);
        assert(unsorted[i] == item);
    }
}

/// Lists go from the most open tasks to the fewest, or from the highest priority to the lowest.
pub proof fn list_rows_order(lists: Seq<ListModel>, sort_mode: ListSortMode)
    ensures
        ({
            let items = list_items(lists, sort_mode);
            forall|i: int, j: int|
                0 <= i < j < items.len() ==> match sort_mode {
                    ListSortMode::RemainingCount => (#[trigger] items[i]).remaining_items >= (
                    #[trigger] items[j]).remaining_items,
                    ListSortMode::Priority => items[i].priority <= items[j].priority,
                }
        }),
{
    let less = list_order(sort_mode);
    list_order_is_weak(sort_mode);
    stable_sort_sorts(list_item_rows(lists), less);
    let items = list_items(lists, sort_mode);
    assert forall|i: int, j: int| 0 <= i < j < items.len() implies match sort_mode {
        ListSortMode::RemainingCount => (#[trigger] items[i]).remaining_items >= (
        #[trigger] items[j]).remaining_items,
        ListSortMode::Priority => items[i].priority <= items[j].priority,
    } by {
        assert(!less(items[j], items[i]));
    }
}

/// By due date, the rows of tasks are grouped by days, from the earliest to the latest.
pub proof fn due_date_rows_are_grouped(
    lists: Seq<ListModel>,
    only: Option<u64>,
    query: Seq<char>,
    time_left_reversed: bool,
    show_completed_in_due_mode: bool,
    today: int,
)
    ensures
        ({
            let items = task_items(
                lists,
                only,
                query,
                TaskSortMode::DueDate,
                time_left_reversed,
                show_completed_in_due_mode,
            );
            &&& are_below_their_days(grouped(items, today), items)
            &&& days_grow(grouped(items, today))
            &&& has_day(grouped(items, today), today)
        }),
{
    due_date_order(lists, only, query, time_left_reversed, show_completed_in_due_mode);
    tasks_are_grouped_by_day(
        task_items(
            lists,
            only,
            query,
            TaskSortMode::DueDate,
            time_left_reversed,
            show_completed_in_due_mode,
        ),
        today,
    );
}

proof fn trimming_keeps_case(s: Seq<char>)
    ensures
        trimmed(ascii_lower(s)) == ascii_lower(trimmed(s)),
    decreases s.len(),
{
    let l = ascii_lower(s);
    if s.len() > 0 && is_white_space(s.first()) {
        assert(l.drop_first() == ascii_lower(s.drop_first()));
        trimming_keeps_case(s.drop_first());
    } else if s.len() > 0 && is_white_space(s.last()) {
        assert(l.drop_last() == ascii_lower(s.drop_last()));
        trimming_keeps_case(s.drop_last());
    }
}

proof fn trimmed_is_ascii(s: Seq<char>)
    requires
        is_ascii_chars(s),
    ensures
        is_ascii_chars(trimmed(s)),
    decreases s.len(),
{
    if s.len() > 0 && is_white_space(s.first()) {
        trimmed_is_ascii(s.drop_first());
    } else if s.len() > 0 && is_white_space(s.last()) {
        trimmed_is_ascii(s.drop_last());
    }
}

proof fn same_query(a: Seq<char>, b: Seq<char>)
    requires
        is_ascii_chars(a),
        is_ascii_chars(b),
        ascii_lower(a) == ascii_lower(b),
    ensures
        lower(trimmed(a)) == lower(trimmed(b)),
{
    trimmed_is_ascii(a);
    trimmed_is_ascii(b);
    trimming_keeps_case(a);
    trimming_keeps_case(b);
}

/// Upper and lower case of a query in ASCII are not told apart: two queries that differ in nothing
/// else find the same tasks and suggest the same lists.
pub proof fn case_of_a_query_does_not_matter(
    lists: Seq<ListModel>,
    only: Option<u64>,
    a: Seq<char>,
    b: Seq<char>,
    sort_mode: TaskSortMode,
    time_left_reversed: bool,
    show_completed_in_due_mode: bool,
)
    requires
        is_ascii_chars(a),
        is_ascii_chars(b),
        ascii_lower(a) == ascii_lower(b),
    ensures
        task_items(lists, only, a, sort_mode, time_left_reversed, show_completed_in_due_mode)
            == task_items(
            lists,
            only,
            b,
            sort_mode,
            time_left_reversed,
            show_completed_in_due_mode,
        ),
        suggestions(lists, a) == suggestions(lists, b),
{
    same_query(a, b);
    same_rows(lists, only, a, b, shows_completed(sort_mode, show_completed_in_due_mode));
    assert(is_suggested(a) =~= is_suggested(b));
}

proof fn same_rows(
    lists: Seq<ListModel>,
    only: Option<u64>,
    a: Seq<char>,
    b: Seq<char>,
    show_completed: bool,
)
    requires
        lower(trimmed(a)) == lower(trimmed(b)),
    ensures
        rows(lists, only, a, show_completed) == rows(lists, only, b, show_completed),
    decreases lists.len(),
{
    if lists.len() > 0 {
        same_rows(lists.drop_last(), only, a, b, show_completed);
        let last = lists.last();
        assert(is_shown(a, show_completed, last) =~= is_shown(b, show_completed, last));
    }
}

/// A suggestion that is chosen is the name of a list: the task goes to a list with just that name.
pub proof fn a_suggestion_names_a_list(lists: Seq<ListModel>, input: Seq<char>, index: usize)
    requires
        index < suggestions(lists, input).len(),
    ensures
        chosen_list(lists, input, index) matches Some(list_id) && exists|i: int|
            #![trigger lists[i]]
            0 <= i < lists.len() && lists[i].id == list_id && lists[i].name == suggestions(
                lists,
                input,
            )[index as int],
{
    let name = suggestions(lists, input)[index as int];
    let kept = list_names(lists).filter(is_suggested(input));
    name_order_is_weak();
    assert(suggestions(lists, input).contains(name));
    sorting_keeps(kept, name_less(), name);
    filter_has(list_names(lists), is_suggested(input), name);
    let k = choose|k: int| 0 <= k < list_names(lists).len() && list_names(lists)[k] == name;
    assert(lists[k].name == name);
    assert(is_just_named(name)(lists[k]));
    first_where_exists(lists, is_just_named(name), k);
    let i = first_where(lists, is_just_named(name)).unwrap();
    assert(is_just_named(name)(lists[i]));
}

/// The order of names is one that names can be sorted by.
pub proof fn name_order_is_weak()
    ensures
        is_weak_order(name_less()),
{
    let less = name_less();
    assert forall|a: Seq<char>, b: Seq<char>| #[trigger] less(a, b) implies !less(b, a) by {
        if less(b, a) {
            lex_less_transitive(a, b, a);
            lex_less_irreflexive(a);
        }
    }
    assert forall|a: Seq<char>, b: Seq<char>, c: Seq<char>| #[trigger]
        less(a, b) implies #[trigger] less(a, c) || less(c, b) by {
        lex_less_total(a, c);
        if !lex_less(a, c) && a != c {
            lex_less_transitive(c, a, b);
        }
    }
}

/// Every suggestion holds the input, upper and lower case not told apart, and is the name of a list;
/// and each such name is suggested.
pub proof fn suggestions_are_the_names(lists: Seq<ListModel>, input: Seq<char>, name: Seq<char>)
    ensures
        suggestions(lists, input).contains(name) <==> is_suggested(input)(name) && exists|i: int|
            #![trigger lists[i]]
            0 <= i < lists.len() && lists[i].name == name,
{
    let names = list_names(lists);
    let kept = names.filter(is_suggested(input));
    name_order_is_weak();
    sorting_keeps(kept, name_less(), name);
    filter_has(names, is_suggested(input), name);
    if names.contains(name) {
        let k = choose|k: int| 0 <= k < names.len() && names[k] == name;
        assert(lists[k].name == name);
    }
    if exists|i: int| #![trigger lists[i]] 0 <= i < lists.len() && lists[i].name == name {
        let i = choose|i: int| #![trigger lists[i]] 0 <= i < lists.len() && lists[i].name == name;
        assert(names[i] == name);
    }
}

} // verus!
