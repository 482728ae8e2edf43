//! The rows that the pages show: which tasks and lists they are, and in which order.

use vstd::prelude::*;

use crate::data::AppData;
use crate::date::day_text;
use crate::seqs::{
    filter_push, first_where, first_where_is, first_where_is_none, is_first_where, views_push,
};
use crate::sorting::{
    key_before, key_order_is_weak, sort_by_keys, stable_sort, views, KeyModel, SortKey,
};
use crate::task::{
    time_left_of, ListItemModel, ListModel, ListSortMode, Task, TaskItemModel, TaskKey, TaskList,
    TaskListViewItem, TaskModel, TaskSortMode, TaskViewItem,
};
use crate::text::{
    ascii_lower, chars_of, contains, eq_ignore_ascii_case, has_substring, lex_less, lower,
    same_text, to_lower, trim, trimmed,
};

verus! {

/// The row of a task.
pub open spec fn task_item(list: ListModel, task: TaskModel) -> TaskItemModel {
    TaskItemModel {
        key: TaskKey { list_id: list.id, task_id: task.id },
        list_name: list.name,
        list_priority: list.priority,
        list_color_hex: list.color_hex,
        title: task.title,
        description: task.description,
        due_date: task.due_date,
        estimated_minutes: task.estimated_minutes,
        actual_minutes: task.actual_minutes,
        completed: task.completed,
        time_left: time_left_of(task.estimated_minutes, task.actual_minutes),
    }
}

/// One of the texts of a task holds the query; an empty query is held by every task.
pub open spec fn is_found(
    query: Seq<char>,
    title: Seq<char>,
    description: Seq<char>,
    list_name: Seq<char>,
    due_text: Seq<char>,
) -> bool {
    ||| query.len() == 0
    ||| has_substring(title, query)
    ||| has_substring(description, query)
    ||| has_substring(list_name, query)
    ||| has_substring(due_text, query)
}

/// A task answers a query: its title, its description, the name of its list or its due date holds
/// the query, upper and lower case not told apart.
pub open spec fn answers(query: Seq<char>, list: ListModel, task: TaskModel) -> bool {
    is_found(
        lower(trimmed(query)),
        lower(task.title),
        lower(task.description),
        lower(list.name),
        day_text(task.due_date),
    )
}

/// Completed tasks are shown in every order but that of the due dates, and there too if so chosen.
pub open spec fn shows_completed(sort_mode: TaskSortMode, show_completed_in_due_mode: bool) -> bool {
    sort_mode != TaskSortMode::DueDate || show_completed_in_due_mode
}

/// The tasks of a list that are shown.
pub open spec fn is_shown(
    query: Seq<char>,
    show_completed: bool,
    list: ListModel,
) -> spec_fn(TaskModel) -> bool {
    |task: TaskModel| (show_completed || !task.completed) && answers(query, list, task)
}

/// The rows of a list.
pub open spec fn list_rows(query: Seq<char>, show_completed: bool, list: ListModel) -> Seq<
    TaskItemModel,
> {
    list.tasks.filter(is_shown(query, show_completed, list)).map_values(
        |task: TaskModel| task_item(list, task),
    )
}

/// The rows of all lists, or of those with one number, before they are sorted.
pub open spec fn rows(
    lists: Seq<ListModel>,
    only: Option<u64>,
    query: Seq<char>,
    show_completed: bool,
) -> Seq<TaskItemModel>
    decreases lists.len(),
{
    if lists.len() == 0 {
        Seq::empty()
    } else if only is None || only == Some(lists.last().id) {
        rows(lists.drop_last(), only, query, show_completed) + list_rows(
            query,
            show_completed,
            lists.last(),
        )
    } else {
        rows(lists.drop_last(), only, query, show_completed)
    }
}

/// What a task is sorted by: by due date, then the priority of its list, then its title; or by the
/// estimated time less the time spent, most of it first, then its title.
pub open spec fn task_sort_key(item: TaskItemModel, sort_mode: TaskSortMode) -> KeyModel {
    match sort_mode {
        TaskSortMode::DueDate => KeyModel {
            major: item.due_date,
            minor: item.list_priority as int,
            text: lower(item.title),
        },
        TaskSortMode::TimeLeft => KeyModel {
            major: item.actual_minutes - item.estimated_minutes,
            minor: 0,
            text: lower(item.title),
        },
    }
}

/// The order of tasks; that of the time left can be turned round.
pub open spec fn task_order(sort_mode: TaskSortMode, time_left_reversed: bool) -> spec_fn(
    TaskItemModel,
    TaskItemModel,
) -> bool {
    |a: TaskItemModel, b: TaskItemModel|
        key_before(
            task_sort_key(a, sort_mode),
            task_sort_key(b, sort_mode),
            sort_mode == TaskSortMode::TimeLeft && time_left_reversed,
        )
}

/// The rows of all lists, or of those with one number, as they are shown.
pub open spec fn task_items(
    lists: Seq<ListModel>,
    only: Option<u64>,
    query: Seq<char>,
    sort_mode: TaskSortMode,
    time_left_reversed: bool,
    show_completed_in_due_mode: bool,
) -> Seq<TaskItemModel> {
    stable_sort(
        rows(lists, only, query, shows_completed(sort_mode, show_completed_in_due_mode)),
        task_order(sort_mode, time_left_reversed),
    )
}

pub open spec fn is_open() -> spec_fn(TaskModel) -> bool {
    |task: TaskModel| !task.completed
}

/// How many tasks are not completed.
pub open spec fn open_count(tasks: Seq<TaskModel>) -> nat {
    tasks.filter(is_open()).len()
}

/// The row of a list.
pub open spec fn list_item(list: ListModel) -> ListItemModel {
    ListItemModel {
        list_id: list.id,
        name: list.name,
        priority: list.priority,
        color_hex: list.color_hex,
        total_items: list.tasks.len(),
        remaining_items: open_count(list.tasks),
    }
}

/// The rows of the lists, before they are sorted.
pub open spec fn list_item_rows(lists: Seq<ListModel>) -> Seq<ListItemModel> {
    lists.map_values(|list: ListModel| list_item(list))
}

/// What a list is sorted by: by the number of its open tasks, most of them first, or by its
/// priority; then by its name.
pub open spec fn list_sort_key(item: ListItemModel, sort_mode: ListSortMode) -> KeyModel {
    KeyModel {
        major: match sort_mode {
            ListSortMode::RemainingCount => -(item.remaining_items as int),
            ListSortMode::Priority => item.priority as int,
        },
        minor: 0,
        text: lower(item.name),
    }
}

/// The order of lists.
pub open spec fn list_order(sort_mode: ListSortMode) -> spec_fn(
    ListItemModel,
    ListItemModel,
) -> bool {
    |a: ListItemModel, b: ListItemModel|
        key_before(list_sort_key(a, sort_mode), list_sort_key(b, sort_mode), false)
}

/// The rows of the lists as they are shown.
pub open spec fn list_items(lists: Seq<ListModel>, sort_mode: ListSortMode) -> Seq<ListItemModel> {
    stable_sort(list_item_rows(lists), list_order(sort_mode))
}

/// A name that is suggested for an input: it holds the input, upper and lower case not told apart.
pub open spec fn is_suggested(input: Seq<char>) -> spec_fn(Seq<char>) -> bool {
    |name: Seq<char>|
        lower(trimmed(input)).len() == 0 || has_substring(lower(name), lower(trimmed(input)))
}

pub open spec fn list_names(lists: Seq<ListModel>) -> Seq<Seq<char>> {
    lists.map_values(|list: ListModel| list.name)
}

pub open spec fn name_less() -> spec_fn(Seq<char>, Seq<char>) -> bool {
    |a: Seq<char>, b: Seq<char>| lex_less(a, b)
}

/// The names of lists that are suggested for an input, in their order.
pub open spec fn suggestions(lists: Seq<ListModel>, input: Seq<char>) -> Seq<Seq<char>> {
    stable_sort(list_names(lists).filter(is_suggested(input)), name_less())
}

/// A list with the given name, the letters `A` to `Z` taken as `a` to `z`.
pub open spec fn is_named(name: Seq<char>) -> spec_fn(ListModel) -> bool {
    |list: ListModel| ascii_lower(list.name) == ascii_lower(name)
}

/// The number of the first list with the given name.
pub open spec fn id_of_name(lists: Seq<ListModel>, name: Seq<char>) -> Option<u64> {
    match first_where(lists, is_named(name)) {
        Some(i) => Some(lists[i].id),
        None => None,
    }
}

/// A list with just the given name.
pub open spec fn is_just_named(name: Seq<char>) -> spec_fn(ListModel) -> bool {
    |list: ListModel| list.name == name
}

/// The number of the first list with just the given name.
pub open spec fn id_of_just_name(lists: Seq<ListModel>, name: Seq<char>) -> Option<u64> {
    match first_where(lists, is_just_named(name)) {
        Some(i) => Some(lists[i].id),
        None => None,
    }
}

/// Tells whether one of the texts of a task holds a query, all of them in lower case.
pub fn find_query(
    query: &str,
    title: &str,
    description: &str,
    list_name: &str,
    due_text: &str,
) -> (res: bool)
    ensures
        res == is_found(query@, title@, description@, list_name@, due_text@),
{
    query.is_empty() || contains(title, query) || contains(description, query) || contains(
        list_name,
        query,
    ) || contains(due_text, query)
}

fn make_task_item(list: &TaskList, task: &Task) -> (res: TaskViewItem)
    ensures
        res@ == task_item(list@, task@),
{
    TaskViewItem {
        key: TaskKey { list_id: list.id, task_id: task.id },
        list_name: list.name.clone(),
        list_priority: list.priority,
        list_color_hex: list.color_hex.clone(),
        title: task.title.clone(),
        description: task.description.clone(),
        due_date: task.due_date,
        estimated_minutes: task.estimated_minutes,
        actual_minutes: task.actual_minutes,
        completed: task.completed,
        time_left: task.time_left(),
    }
}

fn make_task_sort_key(item: &TaskViewItem, sort_mode: TaskSortMode) -> (res: SortKey)
    ensures
        res@ == task_sort_key(item@, sort_mode),
{
    let text = chars_of(to_lower(item.title.as_str()).as_str());
    match sort_mode {
        TaskSortMode::DueDate => SortKey {
            major: item.due_date.number() as i128,
            minor: item.list_priority as i64,
            text,
        },
        TaskSortMode::TimeLeft => SortKey {
            major: item.actual_minutes as i128 - item.estimated_minutes as i128,
            minor: 0,
            text,
        },
    }
}

/// Adds the rows of one list.
fn add_list_rows(list: &TaskList, query: &str, show_completed: bool, items: &mut Vec<TaskViewItem>)
    ensures
        views(final(items)@) == views(old(items)@) + list_rows(query@, show_completed, list@),
{
    let ghost before = views(items@);
    let ghost tasks = views(list.tasks@);
    let ghost shown = is_shown(query@, show_completed, list@);
    let ghost row = |task: TaskModel| task_item(list@, task);
    let query_lc = to_lower(trim(query).as_str());
    let name_lc = to_lower(list.name.as_str());
    let mut i: usize = 0;
    assert(tasks.take(0).filter(shown) == Seq::<TaskModel>::empty()) by {
        reveal(Seq::filter);
    }
    assert(before + tasks.take(0).filter(shown).map_values(row) == before);
    while i < list.tasks.len()
        invariant
            i <= list.tasks@.len(),
            tasks == views(list.tasks@),
            shown == is_shown(query@, show_completed, list@),
            row == (|task: TaskModel| task_item(list@, task)),
            query_lc@ == lower(trimmed(query@)),
            name_lc@ == lower(list.name@),
            views(items@) == before + tasks.take(i as int).filter(shown).map_values(row),
        decreases list.tasks.len() - i,
    {
        let task = &list.tasks[i];
        proof {
            assert(tasks[i as int] == task@);
            filter_push(tasks.take(i as int), shown, task@);
            assert(tasks.take(i as int).push(task@) == tasks.take(i + 1));
        }
        if (show_completed || !task.completed) && find_query(
            query_lc.as_str(),
            to_lower(task.title.as_str()).as_str(),
            to_lower(task.description.as_str()).as_str(),
            name_lc.as_str(),
            task.due_date.to_text().as_str(),
        ) {
            let item = make_task_item(list, task);
            proof {
                let kept = tasks.take(i as int).filter(shown);
                assert(shown(task@));
                assert(kept.push(task@).map_values(row) == kept.map_values(row).push(item@));
                assert(before + kept.map_values(row).push(item@) == (before + kept.map_values(
                    row,
                )).push(item@));
                views_push(items@, item);
            }
            items.push(item);
        } else {
            assert(!shown(task@));
        }
        i += 1;
    }
    assert(tasks.take(i as int) == tasks);
}

/// The order of tasks is one that tasks can be sorted by.
pub proof fn task_order_is_weak(sort_mode: TaskSortMode, time_left_reversed: bool)
    ensures
        crate::sorting::is_weak_order(task_order(sort_mode, time_left_reversed)),
{
    let key = |item: TaskItemModel| task_sort_key(item, sort_mode);
    let turned = sort_mode == TaskSortMode::TimeLeft && time_left_reversed;
    key_order_is_weak(task_order(sort_mode, time_left_reversed), key, turned);
}

/// The order of lists is one that lists can be sorted by.
pub proof fn list_order_is_weak(sort_mode: ListSortMode)
    ensures
        crate::sorting::is_weak_order(list_order(sort_mode)),
{
    let key = |item: ListItemModel| list_sort_key(item, sort_mode);
    key_order_is_weak(list_order(sort_mode), key, false);
}

pub(crate) fn count_open(tasks: &Vec<Task>) -> (res: usize)
    ensures
        res == open_count(views(tasks@)),
{
    let ghost all = views(tasks@);
    let mut res: usize = 0;
    let mut i: usize = 0;
    assert(all.take(0).filter(is_open()).len() == 0) by {
        reveal(Seq::filter);
    }
    while i < tasks.len()
        invariant
            i <= tasks@.len(),
            all == views(tasks@),
            res <= i,
            res == open_count(all.take(i as int)),
        decreases tasks.len() - i,
    {
        proof {
            filter_push(all.take(i as int), is_open(), all[i as int]);
            assert(all.take(i as int).push(all[i as int]) == all.take(i + 1));
            assert(all[i as int] == tasks@[i as int]@);
        }
        if !tasks[i].completed {
            res += 1;
        }
        i += 1;
    }
    assert(all.take(i as int) == all);
    res
}

impl AppData {
    fn task_items_for_lists(
        &self,
        only: Option<u64>,
        query: &str,
        sort_mode: TaskSortMode,
        time_left_reversed: bool,
        show_completed_in_due_mode: bool,
    ) -> (res: Vec<TaskViewItem>)
        ensures
            views(res@) == task_items(
                self@.lists,
                only,
                query@,
                sort_mode,
                time_left_reversed,
                show_completed_in_due_mode,
            ),
    {
        let ghost lists = self@.lists;
        let show_completed = match sort_mode {
            TaskSortMode::DueDate => show_completed_in_due_mode,
            TaskSortMode::TimeLeft => true,
        };
        let mut items: Vec<TaskViewItem> = Vec::new();
        let mut i: usize = 0;
        assert(views(items@) == rows(lists.take(0), only, query@, show_completed));
        while i < self.lists.len()
            invariant
                i <= self.lists@.len(),
                lists == self@.lists,
                views(items@) == rows(lists.take(i as int), only, query@, show_completed),
            decreases self.lists.len() - i,
        {
            proof {
                assert(lists.take(i + 1).drop_last() == lists.take(i as int));
                assert(lists.take(i + 1).last() == self.lists@[i as int]@);
            }
            let wanted = match only {
                Some(list_id) => self.lists[i].id == list_id,
                None => true,
            };
            if wanted {
                add_list_rows(&self.lists[i], query, show_completed, &mut items);
            }
            i += 1;
        }
        assert(lists.take(i as int) == lists);
        let mut keys: Vec<SortKey> = Vec::new();
        let mut k: usize = 0;
        while k < items.len()
            invariant
                k <= items@.len(),
                keys@.len() == k,
                forall|n: int|
                    0 <= n < k ==> #[trigger] keys@[n]@ == task_sort_key(items@[n]@, sort_mode),
            decreases items.len() - k,
        {
            keys.push(make_task_sort_key(&items[k], sort_mode));
            k += 1;
        }
        let reversed = match sort_mode {
            TaskSortMode::DueDate => false,
            TaskSortMode::TimeLeft => time_left_reversed,
        };
        sort_by_keys(items, keys, reversed, Ghost(task_order(sort_mode, time_left_reversed)))
    }

    /// The rows of all tasks that answer the query.
    pub fn main_task_items(
        &self,
        query: &str,
        sort_mode: TaskSortMode,
        time_left_reversed: bool,
        show_completed_in_due_mode: bool,
    ) -> (res: Vec<TaskViewItem>)
        ensures
            views(res@) == task_items(
                self@.lists,
                None,
                query@,
                sort_mode,
                time_left_reversed,
                show_completed_in_due_mode,
            ),
    {
        self.task_items_for_lists(
            None,
            query,
            sort_mode,
            time_left_reversed,
            show_completed_in_due_mode,
        )
    }

    /// The rows of the tasks of one list that answer the query.
    pub fn list_task_items(
        &self,
        list_id: u64,
        query: &str,
        sort_mode: TaskSortMode,
        time_left_reversed: bool,
        show_completed_in_due_mode: bool,
    ) -> (res: Vec<TaskViewItem>)
        ensures
            views(res@) == task_items(
                self@.lists,
                Some(list_id),
                query@,
                sort_mode,
                time_left_reversed,
                show_completed_in_due_mode,
            ),
    {
        self.task_items_for_lists(
            Some(list_id),
            query,
            sort_mode,
            time_left_reversed,
            show_completed_in_due_mode,
        )
    }

    /// The rows of all lists.
    pub fn task_list_items(&self, sort_mode: ListSortMode) -> (res: Vec<TaskListViewItem>)
        ensures
            views(res@) == list_items(self@.lists, sort_mode),
    {
        let ghost lists = self@.lists;
        let mut items: Vec<TaskListViewItem> = Vec::new();
        let mut keys: Vec<SortKey> = Vec::new();
        let mut i: usize = 0;
        while i < self.lists.len()
            invariant
                i <= self.lists@.len(),
                lists == self@.lists,
                keys@.len() == i,
                views(items@) == list_item_rows(lists).take(i as int),
                items@.len() == i,
                forall|n: int|
                    0 <= n < i ==> #[trigger] keys@[n]@ == list_sort_key(items@[n]@, sort_mode),
            decreases self.lists.len() - i,
        {
            let list = &self.lists[i];
            let remaining: usize = count_open(&list.tasks);
            let item = TaskListViewItem {
                list_id: list.id,
                name: list.name.clone(),
                priority: list.priority,
                color_hex: list.color_hex.clone(),
                total_items: list.tasks.len(),
                remaining_items: remaining,
            };
            let text = chars_of(to_lower(list.name.as_str()).as_str());
            let key = match sort_mode {
                ListSortMode::RemainingCount => SortKey {
                    major: -(remaining as i128),
                    minor: 0,
                    text,
                },
                ListSortMode::Priority => SortKey { major: list.priority as i128, minor: 0, text },
            };
            proof {
                assert(lists[i as int] == list@);
                assert(item@ == list_item(list@));
                assert(key@ == list_sort_key(item@, sort_mode));
                views_push(items@, item);
                assert(list_item_rows(lists).take(i as int).push(item@) == list_item_rows(
                    lists,
                ).take(i + 1));
            }
            items.push(item);
            keys.push(key);
            i += 1;
        }
        assert(list_item_rows(lists).take(i as int) == list_item_rows(lists));
        sort_by_keys(items, keys, false, Ghost(list_order(sort_mode)))
    }

    /// The names of lists that hold the input, upper and lower case not told apart.
    pub fn list_name_suggestions(&self, input: &str) -> (res: Vec<String>)
        ensures
            views(res@) == suggestions(self@.lists, input@),
    {
        let ghost all = list_names(self@.lists);
        let ghost wanted = is_suggested(input@);
        let needle = to_lower(trim(input).as_str());
        let mut names: Vec<String> = Vec::new();
        let mut keys: Vec<SortKey> = Vec::new();
        let mut i: usize = 0;
        assert(all.take(0).filter(wanted) == Seq::<Seq<char>>::empty()) by {
            reveal(Seq::filter);
        }
        assert(views(names@) == Seq::<Seq<char>>::empty());
        while i < self.lists.len()
            invariant
                i <= self.lists@.len(),
                all == list_names(self@.lists),
                wanted == is_suggested(input@),
                needle@ == lower(trimmed(input@)),
                views(names@) == all.take(i as int).filter(wanted),
                keys@.len() == names@.len(),
                forall|n: int|
                    0 <= n < names@.len() ==> #[trigger] keys@[n]@ == (KeyModel {
                        major: 0,
                        minor: 0,
                        text: names@[n]@,
                    }),
            decreases self.lists.len() - i,
        {
            let name = self.lists[i].name.clone();
            proof {
                assert(self@.lists[i as int] == self.lists@[i as int]@);
                assert(all[i as int] == name@);
                filter_push(all.take(i as int), wanted, name@);
                assert(all.take(i as int).push(name@) == all.take(i + 1));
            }
            if needle.as_str().is_empty() || contains(
                to_lower(name.as_str()).as_str(),
                needle.as_str(),
            ) {
                assert(wanted(name@));
                proof {
                    views_push(names@, name);
                }
                keys.push(SortKey { major: 0, minor: 0, text: chars_of(name.as_str()) });
                names.push(name);
            } else {
                assert(!wanted(name@));
            }
            i += 1;
        }
        assert(all.take(i as int) == all);
        sort_by_keys(names, keys, false, Ghost(name_less()))
    }

    /// The number of the first list with the given name, the letters `A` to `Z` taken as `a` to
    /// `z`.
    pub fn find_list_id_by_name(&self, name: &str) -> (res: Option<u64>)
        ensures
            res == id_of_name(self@.lists, name@),
    {
        let ghost lists = self@.lists;
        let mut i: usize = 0;
        while i < self.lists.len()
            invariant
                i <= self.lists@.len(),
                lists == self@.lists,
                forall|k: int| 0 <= k < i ==> !is_named(name@)(#[trigger] lists[k]),
            decreases self.lists.len() - i,
        {
            assert(lists[i as int] == self.lists@[i as int]@);
            if eq_ignore_ascii_case(self.lists[i].name.as_str(), name) {
                proof {
                    assert(is_first_where(lists, is_named(name@), i as int));
                    first_where_is(lists, is_named(name@), i as int);
                }
                return Some(self.lists[i].id);
            }
            i += 1;
        }
        proof {
            first_where_is_none(lists, is_named(name@));
        }
        None
    }

    /// The number of the first list with just the given name.
    pub fn find_list_id_by_just_name(&self, name: &str) -> (res: Option<u64>)
        ensures
            res == id_of_just_name(self@.lists, name@),
    {
        let ghost lists = self@.lists;
        let mut i: usize = 0;
        while i < self.lists.len()
            invariant
                i <= self.lists@.len(),
                lists == self@.lists,
                forall|k: int| 0 <= k < i ==> !is_just_named(name@)(#[trigger] lists[k]),
            decreases self.lists.len() - i,
        {
            assert(lists[i as int] == self.lists@[i as int]@);
            if same_text(self.lists[i].name.as_str(), name) {
                proof {
                    assert(is_first_where(lists, is_just_named(name@), i as int));
                    first_where_is(lists, is_just_named(name@), i as int);
                }
                return Some(self.lists[i].id);
            }
            i += 1;
        }
        proof {
            first_where_is_none(lists, is_just_named(name@));
        }
        None
    }
}

} // verus!
