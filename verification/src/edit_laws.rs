//! What each edit does to the data, told field by field: what changes, and that nothing else does.

use vstd::prelude::*;
use vstd::seq_lib::*;

use crate::data::{
    delete_step, due_date_step, has_list_id, has_task_id, is_outcome, lacks_list_id, lacks_task_id,
    move_step, not_overdue, overdue_count, pruned_lists, removed_count, set_actual, set_color,
    set_description, set_due_date, set_estimated, set_name, set_priority, set_title, settled,
    toggle, DataModel,
};
use crate::seqs::{
    filter_has, filter_len, first_where, first_where_exists, first_where_is, first_where_is_none,
    is_first_where,
};
use crate::task::{time_left_of, ListModel, TaskKey, TaskModel};

verus! {

/// The list at `i` is the first with the given number.
pub open spec fn is_list_at(data: DataModel, list_id: u64, i: int) -> bool {
    &&& 0 <= i < data.lists.len()
    &&& data.lists[i].id == list_id
    &&& forall|k: int| 0 <= k < i ==> (#[trigger] data.lists[k]).id != list_id
}

/// The task at `j` of the list at `i` is the first with the numbers of the key.
pub open spec fn is_task_at(data: DataModel, key: TaskKey, i: int, j: int) -> bool {
    &&& is_list_at(data, key.list_id, i)
    &&& 0 <= j < data.lists[i].tasks.len()
    &&& data.lists[i].tasks[j].id == key.task_id
    &&& forall|k: int|
        0 <= k < j ==> (#[trigger] data.lists[i].tasks[k]).id != key.task_id
}

/// No list has the number.
pub open spec fn lacks_list(data: DataModel, list_id: u64) -> bool {
    forall|k: int| 0 <= k < data.lists.len() ==> (#[trigger] data.lists[k]).id != list_id
}

/// A list is found by its number where there is one: the first that has it.
pub proof fn a_list_is_found_by_its_number(data: DataModel, list_id: u64, i: int)
    ensures
        data.list_index(list_id) == Some(i) <==> is_list_at(data, list_id, i),
        data.list_index(list_id) is None <==> lacks_list(data, list_id),
        is_list_at(data, list_id, i) ==> data.list(list_id) == Some(data.lists[i]),
        lacks_list(data, list_id) ==> data.list(list_id) is None,
{
    let p = has_list_id(list_id);
    if is_list_at(data, list_id, i) {
        assert(is_first_where(data.lists, p, i));
        first_where_is(data.lists, p, i);
    }
    if lacks_list(data, list_id) {
        first_where_is_none(data.lists, p);
    }
    match data.list_index(list_id) {
        Some(k) => {
            assert(is_first_where(data.lists, p, k));
            assert forall|m: int| 0 <= m < k implies (#[trigger] data.lists[m]).id != list_id by {
                assert(!p(data.lists[m]));
            }
            assert(data.lists[k].id == list_id);
            if lacks_list(data, list_id) {
                assert(false);
            }
        },
        None => {
            assert forall|k: int| 0 <= k < data.lists.len() implies (#[trigger] data.lists[k]).id
                != list_id by {
                if p(data.lists[k]) {
                    first_where_exists(data.lists, p, k);
                }
            }
        },
    }
}

proof fn task_position(tasks: Seq<TaskModel>, task_id: u64, j: int)
    ensures
        first_where(tasks, has_task_id(task_id)) == Some(j) <==> 0 <= j < tasks.len()
            && tasks[j].id == task_id && forall|k: int|
            0 <= k < j ==> (#[trigger] tasks[k]).id != task_id,
        first_where(tasks, has_task_id(task_id)) is None <==> forall|k: int|
            0 <= k < tasks.len() ==> (#[trigger] tasks[k]).id != task_id,
{
    let p = has_task_id(task_id);
    if 0 <= j < tasks.len() && tasks[j].id == task_id && forall|k: int|
        0 <= k < j ==> (#[trigger] tasks[k]).id != task_id {
        assert(is_first_where(tasks, p, j));
        first_where_is(tasks, p, j);
    }
    if forall|k: int| 0 <= k < tasks.len() ==> (#[trigger] tasks[k]).id != task_id {
        first_where_is_none(tasks, p);
    }
    match first_where(tasks, p) {
        Some(k) => {
            assert(is_first_where(tasks, p, k));
            assert forall|m: int| 0 <= m < k implies (#[trigger] tasks[m]).id != task_id by {
                assert(!p(tasks[m]));
            }
            assert(tasks[k].id == task_id);
        },
        None => {
            assert forall|k: int| 0 <= k < tasks.len() implies (#[trigger] tasks[k]).id
                != task_id by {
                if p(tasks[k]) {
                    first_where_exists(tasks, p, k);
                }
            }
        },
    }
}

/// A task is found by its key where there is one: the first of the list that has its number.
pub proof fn a_task_is_found_by_its_key(data: DataModel, key: TaskKey, i: int, j: int)
    ensures
        data.position(key) == Some((i, j)) <==> is_task_at(data, key, i, j),
        is_task_at(data, key, i, j) ==> data.task(key) == Some(data.lists[i].tasks[j]),
        data.position(key) is None <==> data.task(key) is None,
        data.task(key) is None <==> forall|a: int, b: int| !is_task_at(data, key, a, b),
{
    a_list_is_found_by_its_number(data, key.list_id, i);
    if 0 <= i < data.lists.len() {
        task_position(data.lists[i].tasks, key.task_id, j);
    }
    match data.position(key) {
        Some((a, b)) => {
            a_list_is_found_by_its_number(data, key.list_id, a);
            task_position(data.lists[a].tasks, key.task_id, b);
            assert(is_task_at(data, key, a, b));
        },
        None => {
            assert forall|a: int, b: int| !is_task_at(data, key, a, b) by {
                if is_task_at(data, key, a, b) {
                    a_list_is_found_by_its_number(data, key.list_id, a);
                    task_position(data.lists[a].tasks, key.task_id, b);
                }
            }
        },
    }
}

/// The data are the same but for the task at one position, which is `task` now.
pub open spec fn only_task_differs(
    before: DataModel,
    after: DataModel,
    i: int,
    j: int,
    task: TaskModel,
) -> bool {
    &&& only_tasks_differ(before, after, i, after.lists[i].tasks)
    &&& after.lists[i].tasks.len() == before.lists[i].tasks.len()
    &&& forall|m: int|
        0 <= m < before.lists[i].tasks.len() && m != j ==> #[trigger] after.lists[i].tasks[m]
            == before.lists[i].tasks[m]
    &&& after.lists[i].tasks[j] == task
}

/// The data are the same but for the tasks of one list, which are `tasks` now.
pub open spec fn only_tasks_differ(
    before: DataModel,
    after: DataModel,
    i: int,
    tasks: Seq<TaskModel>,
) -> bool {
    &&& same_but_for_list(before, after, i)
    &&& after.lists[i].id == before.lists[i].id
    &&& after.lists[i].name == before.lists[i].name
    &&& after.lists[i].priority == before.lists[i].priority
    &&& after.lists[i].color_hex == before.lists[i].color_hex
    &&& after.lists[i].tasks == tasks
}

/// The data are the same but for the list at one position.
pub open spec fn same_but_for_list(before: DataModel, after: DataModel, i: int) -> bool {
    &&& after.next_list_id == before.next_list_id
    &&& after.next_task_id == before.next_task_id
    &&& after.lists.len() == before.lists.len()
    &&& forall|k: int|
        0 <= k < before.lists.len() && k != i ==> #[trigger] after.lists[k] == before.lists[k]
}

/// The fields of a task, one by one.
pub open spec fn has_fields(
    task: TaskModel,
    id: u64,
    title: Seq<char>,
    description: Seq<char>,
    due_date: int,
    estimated: u32,
    actual: u32,
    completed: bool,
    completed_on: Option<int>,
) -> bool {
    &&& task.id == id
    &&& task.title == title
    &&& task.description == description
    &&& task.due_date == due_date
    &&& task.estimated_minutes == estimated
    &&& task.actual_minutes == actual
    &&& task.completed == completed
    &&& task.completed_on == completed_on
}

/// Setting one field of a task gives that field its value and leaves every other field of the task,
/// every other task, every list and all numbers as they are.
pub proof fn setting_a_field_changes_that_field(
    data: DataModel,
    key: TaskKey,
    i: int,
    j: int,
    text: Seq<char>,
    hours: u32,
    day: int,
)
    requires
        is_task_at(data, key, i, j),
    ensures
        ({
            let t = data.lists[i].tasks[j];
            &&& data.edited_task(key, set_title(text)) matches Some(after) && only_task_differs(
                data,
                after,
                i,
                j,
                after.lists[i].tasks[j],
            ) && has_fields(
                after.lists[i].tasks[j],
                t.id,
                text,
                t.description,
                t.due_date,
                t.estimated_minutes,
                t.actual_minutes,
                t.completed,
                t.completed_on,
            )
            &&& data.edited_task(key, set_description(text)) matches Some(after)
                && only_task_differs(data, after, i, j, after.lists[i].tasks[j]) && has_fields(
                after.lists[i].tasks[j],
                t.id,
                t.title,
                text,
                t.due_date,
                t.estimated_minutes,
                t.actual_minutes,
                t.completed,
                t.completed_on,
            )
            &&& data.edited_task(key, set_estimated(hours)) matches Some(after)
                && only_task_differs(data, after, i, j, after.lists[i].tasks[j]) && has_fields(
                after.lists[i].tasks[j],
                t.id,
                t.title,
                t.description,
                t.due_date,
                hours,
                t.actual_minutes,
                t.completed,
                t.completed_on,
            )
            &&& data.edited_task(key, set_actual(hours)) matches Some(after) && only_task_differs(
                data,
                after,
                i,
                j,
                after.lists[i].tasks[j],
            ) && has_fields(
                after.lists[i].tasks[j],
                t.id,
                t.title,
                t.description,
                t.due_date,
                t.estimated_minutes,
                hours,
                t.completed,
                t.completed_on,
            )
            &&& data.edited_task(key, set_due_date(day)) matches Some(after) && only_task_differs(
                data,
                after,
                i,
                j,
                after.lists[i].tasks[j],
            ) && has_fields(
                after.lists[i].tasks[j],
                t.id,
                t.title,
                t.description,
                day,
                t.estimated_minutes,
                t.actual_minutes,
                t.completed,
                t.completed_on,
            )
            &&& data.edited_task(key, toggle(day)) matches Some(after) && only_task_differs(
                data,
                after,
                i,
                j,
                after.lists[i].tasks[j],
            ) && has_fields(
                after.lists[i].tasks[j],
                t.id,
                t.title,
                t.description,
                t.due_date,
                t.estimated_minutes,
                t.actual_minutes,
                !t.completed,
                if t.completed {
                    None
                } else {
                    Some(day)
                },
            )
        }),
{
    a_task_is_found_by_its_key(data, key, i, j);
}

/// A key that names no task changes nothing.
pub proof fn a_key_without_a_task_changes_nothing(
    data: DataModel,
    key: TaskKey,
    edit: spec_fn(TaskModel) -> TaskModel,
    target_list_id: u64,
)
    requires
        forall|i: int, j: int| !is_task_at(data, key, i, j),
    ensures
        data.edited_task(key, edit) is None,
        data.without_task(key) is None,
        data.with_task_moved(key, target_list_id) is None,
{
    a_task_is_found_by_its_key(data, key, 0, 0);
}

/// What is written to a task can be read from it after the edit, unless it is removed as completed
/// and more than a week past its due date.
pub proof fn a_field_is_read_back_after_the_edit(
    data: DataModel,
    key: TaskKey,
    i: int,
    j: int,
    edit: spec_fn(TaskModel) -> TaskModel,
    today: int,
)
    requires
        is_task_at(data, key, i, j),
        edit(data.lists[i].tasks[j]).id == key.task_id,
    ensures
        ({
            let task = edit(data.lists[i].tasks[j]);
            settled(data.edited_task(key, edit), today) matches Some(after) && (
            after.lists[i].tasks.contains(task) <==> !(task.completed && today > task.due_date
                + 7))
        }),
{
    a_task_is_found_by_its_key(data, key, i, j);
    let task = edit(data.lists[i].tasks[j]);
    let tasks = data.lists[i].tasks.update(j, task);
    assert(tasks[j] == task);
    filter_has(tasks, not_overdue(today), task);
}

/// Setting the name, the priority or the color of a list changes that and nothing else.
pub proof fn setting_a_field_of_a_list_changes_that_field(
    data: DataModel,
    list_id: u64,
    i: int,
    text: Seq<char>,
    priority: u8,
)
    requires
        is_list_at(data, list_id, i),
    ensures
        ({
            let list = data.lists[i];
            &&& data.edited_list(list_id, set_name(text)) matches Some(after) && same_but_for_list(
                data,
                after,
                i,
            ) && after.lists[i].id == list.id && after.lists[i].name == text
                && after.lists[i].priority == list.priority && after.lists[i].color_hex
                == list.color_hex && after.lists[i].tasks == list.tasks
            &&& data.edited_list(list_id, set_priority(priority)) matches Some(after)
                && same_but_for_list(data, after, i) && after.lists[i].id == list.id
                && after.lists[i].name == list.name && after.lists[i].priority == priority
                && after.lists[i].color_hex == list.color_hex && after.lists[i].tasks == list.tasks
            &&& data.edited_list(list_id, set_color(text)) matches Some(after)
                && same_but_for_list(data, after, i) && after.lists[i].id == list.id
                && after.lists[i].name == list.name && after.lists[i].priority == list.priority
                && after.lists[i].color_hex == text && after.lists[i].tasks == list.tasks
        }),
{
    a_list_is_found_by_its_number(data, list_id, i);
}

/// A number that no list has changes nothing.
pub proof fn a_number_without_a_list_changes_nothing(
    data: DataModel,
    list_id: u64,
    edit: spec_fn(ListModel) -> ListModel,
    key: TaskKey,
    today: int,
)
    requires
        lacks_list(data, list_id),
    ensures
        data.edited_list(list_id, edit) is None,
        data.without_list(list_id) is None,
        data.with_new_task(list_id, today) is None,
        data.with_task_moved(key, list_id) is None,
{
    a_list_is_found_by_its_number(data, list_id, 0);
}

/// Deleting a task takes the tasks with its number out of its list, in which the others keep their
/// order; deleting a list takes out the lists with its number.
pub proof fn deleting_takes_out_what_has_the_number(
    data: DataModel,
    key: TaskKey,
    i: int,
    j: int,
    list_id: u64,
    k: int,
)
    ensures
        is_task_at(data, key, i, j) ==> (data.without_task(key) matches Some(after)
            && only_tasks_differ(
            data,
            after,
            i,
            data.lists[i].tasks.filter(|task: TaskModel| task.id != key.task_id),
        )),
        is_list_at(data, list_id, k) ==> (data.without_list(list_id) matches Some(after)
            && after.lists == data.lists.filter(|list: ListModel| list.id != list_id)
            && after.next_list_id == data.next_list_id && after.next_task_id
            == data.next_task_id),
{
    if is_task_at(data, key, i, j) {
        a_task_is_found_by_its_key(data, key, i, j);
        assert(lacks_task_id(key.task_id) =~= (|task: TaskModel| task.id != key.task_id));
    }
    if is_list_at(data, list_id, k) {
        a_list_is_found_by_its_number(data, list_id, k);
        assert(lacks_list_id(list_id) =~= (|list: ListModel| list.id != list_id));
    }
}

/// Moving a task takes it out of its list and puts it at the end of the other, every field as it
/// was, but for its number where a task there has it already and another is left.
pub proof fn moving_puts_the_task_at_the_end(
    data: DataModel,
    key: TaskKey,
    target_list_id: u64,
    i: int,
    j: int,
    t: int,
)
    requires
        is_task_at(data, key, i, j),
        is_list_at(data, target_list_id, t),
    ensures
        key.list_id == target_list_id ==> data.with_task_moved(key, target_list_id) is None,
        key.list_id != target_list_id ==> (data.with_task_moved(key, target_list_id) matches Some(
            after,
        ) && {
            let task = data.lists[i].tasks[j];
            let there = data.lists[t].tasks;
            let moved = after.lists[t].tasks.last();
            let is_held = exists|k: int|
                0 <= k < there.len() && (#[trigger] there[k]).id == key.task_id;
            let is_given = is_held && data.next_task_id < u64::MAX;
            &&& after.lists.len() == data.lists.len()
            &&& forall|k: int|
                0 <= k < data.lists.len() && k != i && k != t ==> #[trigger] after.lists[k]
                    == data.lists[k]
            &&& after.lists[i] == ListModel {
                tasks: data.lists[i].tasks.take(j) + data.lists[i].tasks.skip(j + 1),
                ..data.lists[i]
            }
            &&& after.lists[t] == ListModel { tasks: there.push(moved), ..data.lists[t] }
            &&& has_fields(
                moved,
                if is_given {
                    data.next_task_id
                } else {
                    task.id
                },
                task.title,
                task.description,
                task.due_date,
                task.estimated_minutes,
                task.actual_minutes,
                task.completed,
                task.completed_on,
            )
            &&& after.next_task_id == data.next_task_id + (if is_given {
                1int
            } else {
                0
            })
            &&& after.next_list_id == data.next_list_id
        }),
{
    a_task_is_found_by_its_key(data, key, i, j);
    a_list_is_found_by_its_number(data, target_list_id, t);
    if key.list_id != target_list_id {
        assert(i != t);
        task_position(data.lists[t].tasks, key.task_id, 0);
        let tasks = data.lists[i].tasks;
        assert(tasks.remove(j) == tasks.take(j) + tasks.skip(j + 1));
        let there = data.lists[t].tasks;
        if first_where(there, has_task_id(key.task_id)) is Some {
            let k = first_where(there, has_task_id(key.task_id)).unwrap();
            task_position(there, key.task_id, k);
            assert(there[k].id == key.task_id);
        }
    }
}

/// A new task stands at the end of its list with the next number, without texts and hours, open and
/// due today; a new list stands at the end of all with the next number, with its first name,
/// priority and color and without tasks. Nothing else changes but the next number.
pub proof fn what_is_new_is_blank(data: DataModel, list_id: u64, i: int, today: int)
    ensures
        is_list_at(data, list_id, i) && data.next_task_id < u64::MAX ==> (data.with_new_task(
            list_id,
            today,
        ) matches Some(after) && {
            let task = after.lists[i].tasks.last();
            &&& only_tasks_differ(
                DataModel { next_task_id: after.next_task_id, ..data },
                after,
                i,
                data.lists[i].tasks.push(task),
            )
            &&& after.next_task_id == data.next_task_id + 1
            &&& has_fields(
                task,
                data.next_task_id,
                Seq::empty(),
                Seq::empty(),
                today,
                0,
                0,
                false,
                None,
            )
        }),
        data.next_list_id < u64::MAX ==> {
            let after = data.with_new_list();
            let list = after.lists.last();
            &&& after.lists == data.lists.push(list)
            &&& after.next_list_id == data.next_list_id + 1
            &&& after.next_task_id == data.next_task_id
            &&& list.id == data.next_list_id
            &&& list.name == "New List"@
            &&& list.priority == 1
            &&& list.color_hex == "#4DA3FF"@
            &&& list.tasks.len() == 0
        },
{
    a_list_is_found_by_its_number(data, list_id, i);
}

/// A task goes when the data are pruned just where it is completed and today is more than seven
/// days after its due date, whatever its other fields are.
pub proof fn pruning_goes_by_completion_and_due_date(
    data: DataModel,
    today: int,
    i: int,
    task: TaskModel,
)
    requires
        0 <= i < data.lists.len(),
        data.lists[i].tasks.contains(task),
    ensures
        task.completed && today > task.due_date + 7 ==> !data.pruned(
            today,
        ).lists[i].tasks.contains(task),
        !task.completed || today <= task.due_date + 7 ==> data.pruned(
            today,
        ).lists[i].tasks.contains(task),
{
    filter_has(data.lists[i].tasks, not_overdue(today), task);
}

/// Pruning keeps, in their order, the tasks of each list that are open or no more than seven days
/// past their due date; the lists, their names, priorities and colors, and all numbers stay.
pub proof fn pruning_keeps_all_but_the_overdue(data: DataModel, today: int, i: int)
    ensures
        data.pruned(today).lists.len() == data.lists.len(),
        data.pruned(today).next_list_id == data.next_list_id,
        data.pruned(today).next_task_id == data.next_task_id,
        0 <= i < data.lists.len() ==> {
            let after = data.pruned(today).lists[i];
            &&& after.id == data.lists[i].id
            &&& after.name == data.lists[i].name
            &&& after.priority == data.lists[i].priority
            &&& after.color_hex == data.lists[i].color_hex
            &&& after.tasks == data.lists[i].tasks.filter(
                |task: TaskModel| !(task.completed && today > task.due_date + 7),
            )
        },
{
    assert(not_overdue(today) =~= (|task: TaskModel|
        !(task.completed && today > task.due_date + 7)));
}

/// How many tasks there are in all lists.
pub open spec fn task_total(lists: Seq<ListModel>) -> nat
    decreases lists.len(),
{
    if lists.len() == 0 {
        0
    } else {
        task_total(lists.drop_last()) + lists.last().tasks.len()
    }
}

proof fn removed_are_missing(lists: Seq<ListModel>, today: int)
    ensures
        task_total(pruned_lists(lists, today)) + overdue_count(lists, today) == task_total(lists),
    decreases lists.len(),
{
    if lists.len() > 0 {
        removed_are_missing(lists.drop_last(), today);
        assert(pruned_lists(lists, today).drop_last() == pruned_lists(lists.drop_last(), today));
        filter_len(lists.last().tasks, not_overdue(today));
    }
}

/// The number of tasks that pruning tells to be removed is by how many they are fewer.
pub proof fn pruning_tells_how_many_are_removed(data: DataModel, today: int)
    requires
        task_total(data.lists) <= usize::MAX,
    ensures
        removed_count(data.lists, today) == task_total(data.lists) - task_total(
            data.pruned(today).lists,
        ),
{
    removed_are_missing(data.lists, today);
}

/// After an edit the data are pruned; where there is no edit, there is nothing after it.
pub proof fn an_edit_is_followed_by_pruning(data: DataModel, today: int)
    ensures
        settled(Some(data), today) == Some(data.pruned(today)),
        settled(None, today) is None,
{
}

/// An edit that has a result changes the data to it and tells so; one that has none changes nothing
/// and tells so.
pub proof fn an_outcome_is_what_is_told(
    before: DataModel,
    after: DataModel,
    now: DataModel,
    changed: bool,
)
    ensures
        is_outcome(before, Some(after), now, changed) <==> changed && now == after,
        is_outcome(before, None, now, changed) <==> !changed && now == before,
{
}

/// Several tasks are edited one after the other, each as it would be alone, and there is a result
/// where there is one for any of them.
pub proof fn several_are_edited_one_by_one(
    data: DataModel,
    keys: Seq<TaskKey>,
    key: TaskKey,
    day: int,
    list_id: u64,
)
    ensures
        ({
            let none = Seq::<TaskKey>::empty();
            let before = data.for_keys(keys, due_date_step(day));
            &&& data.edited_by_keys(none, due_date_step(day)) is None
            &&& data.for_keys(none, due_date_step(day)) == data
            &&& data.for_keys(keys.push(key), due_date_step(day)) == match before.edited_task(
                key,
                set_due_date(day),
            ) {
                Some(after) => after,
                None => before,
            }
            &&& data.edited_by_keys(keys.push(key), due_date_step(day)) is Some <==> (
            data.edited_by_keys(keys, due_date_step(day)) is Some || before.task(key) is Some)
            &&& data.edited_by_keys(keys, due_date_step(day)) matches Some(after) ==> after
                == data.for_keys(keys, due_date_step(day))
        }),
        ({
            let none = Seq::<TaskKey>::empty();
            let before = data.for_keys(keys, move_step(list_id));
            &&& data.edited_by_keys(none, move_step(list_id)) is None
            &&& data.for_keys(none, move_step(list_id)) == data
            &&& data.for_keys(keys.push(key), move_step(list_id)) == match before.with_task_moved(
                key,
                list_id,
            ) {
                Some(after) => after,
                None => before,
            }
            &&& data.edited_by_keys(keys.push(key), move_step(list_id)) is Some <==> (
            data.edited_by_keys(keys, move_step(list_id)) is Some || before.with_task_moved(
                key,
                list_id,
            ) is Some)
            &&& data.edited_by_keys(keys, move_step(list_id)) matches Some(after) ==> after
                == data.for_keys(keys, move_step(list_id))
        }),
        ({
            let none = Seq::<TaskKey>::empty();
            let before = data.for_keys(keys, delete_step());
            &&& data.edited_by_keys(none, delete_step()) is None
            &&& data.for_keys(none, delete_step()) == data
            &&& data.for_keys(keys.push(key), delete_step()) == match before.without_task(key) {
                Some(after) => after,
                None => before,
            }
            &&& data.edited_by_keys(keys.push(key), delete_step()) is Some <==> (
            data.edited_by_keys(keys, delete_step()) is Some || before.task(key) is Some)
            &&& data.edited_by_keys(keys, delete_step()) matches Some(after) ==> after
                == data.for_keys(keys, delete_step())
        }),
{
    assert(keys.push(key).drop_last() == keys);
}

/// The time left and the time spent make up the time estimated, as far as a 32-bit number tells.
pub proof fn time_left_and_spent_make_up_the_estimate(estimated: u32, actual: u32)
    ensures
        i32::MIN <= time_left_of(estimated, actual) <= i32::MAX,
        ({
            let sum = time_left_of(estimated, actual) + actual;
            sum == estimated || sum == estimated + 0x1_0000_0000 || sum == estimated
                - 0x1_0000_0000
        }),
        i32::MIN <= estimated - actual <= i32::MAX ==> time_left_of(estimated, actual)
            == estimated - actual,
{
}

} // verus!
