//! What becomes of each task when keys are pressed: a key reaches the task of its row and no other,
//! and no task is lost unasked.

use vstd::multiset::*;
use vstd::prelude::*;
use vstd::seq_lib::*;

use crate::data::{
    due_date_step, has_list_id, has_task_id, is_overdue, move_step, not_overdue, set_actual,
    set_color, set_description, set_due_date, set_estimated, set_name, set_priority, set_title,
    settled, toggle, DataModel,
};
use crate::data_laws::{edits_reach_one_task, is_numbered, keeps_list, keeps_number};
use crate::date::parsed_day;
use crate::editing::{
    chosen_list, confirm_key, editor_key, field_taken, is_yes, list_chosen, list_field_set,
    multi_date_taken, multi_delete_asked, multi_key, multi_list_taken, task_deleted, task_field_set,
};
use crate::effects::{edited, text_edited, TextPurpose};
use crate::input::{KeyCode, KeyPress};
use crate::item_laws::{is_row_of, rows_are_the_answers};
use crate::items::{shows_completed, task_item};
use crate::keys::{
    description_opened, list_created, list_delete_asked, list_edit_started, list_moved,
    list_order_toggled, list_page_key, list_search_started, list_sort_toggled, main_key,
    main_task_created, multi_edit_opened, notes_opened, open_list_key, open_task_key, order_toggled,
    page_shown, quit, row_delete_asked, row_moved, row_opened, row_toggled, rows_selected,
    search_cleared, search_started, selected_list_opened, sort_toggled, task_created,
    task_delete_asked, task_edit_started, task_toggled,
};
use crate::program::pressed;
use crate::scratchpad::without_help;
use crate::seqs::{filter_has, is_first_where};
use crate::state::{AppModel, EditTarget, EditorModel, MultiModel};
use crate::store_laws::{unnumbered_list, unnumbered_task};
use crate::task::{ListModel, TaskKey, TaskModel};
use crate::text::{parsed_number, trimmed};

verus! {

/// The task at a position has a row, with its key.
pub open spec fn is_task_of_row(app: AppModel, row: int, i: int, j: int) -> bool {
    &&& 0 <= i < app.data.lists.len()
    &&& 0 <= j < app.data.lists[i].tasks.len()
    &&& app.current_items()[row] == task_item(app.data.lists[i], app.data.lists[i].tasks[j])
}

/// Each row is that of a task.
pub proof fn each_row_has_its_task(app: AppModel, row: int)
    requires
        0 <= row < app.current_items().len(),
    ensures
        exists|i: int, j: int| is_task_of_row(app, row, i, j),
{
    reveal(AppModel::main_items);
    reveal(AppModel::items_of_list);
    let items = app.current_items();
    let show = shows_completed(app.main_sort_mode, app.show_completed_in_due_mode);
    let (only, query) = match app.expanded_list_id {
        Some(list_id) => (Some(list_id), ""@),
        None => (None, app.search.text),
    };
    rows_are_the_answers(
        app.data.lists,
        only,
        query,
        app.main_sort_mode,
        app.time_left_reversed,
        app.show_completed_in_due_mode,
        items[row],
    );
    assert(items.contains(items[row]));
    let (i, j) = choose|i: int, j: int|
        is_row_of(app.data.lists, only, query, show, items[row], i, j);
    assert(is_task_of_row(app, row, i, j));
}

/// Completing the task of the selected row, or marking it as open again, changes that task and no
/// other, but for tasks that are overdue then. Asking to delete it and saying yes takes that task
/// out of its list and no other.
pub proof fn keys_reach_the_selected_task(app: AppModel, key: KeyPress, today: int, i: int, j: int)
    requires
        is_numbered(app.data),
        app.current_index() < app.current_items().len(),
        is_task_of_row(app, app.current_index() as int, i, j),
        is_yes(key.code),
    ensures
        row_toggled(app, today).app.data == app.data.with_task(
            i,
            j,
            toggle(today)(app.data.lists[i].tasks[j]),
        ).pruned(today),
        row_delete_asked(app).confirm matches Some(question) && confirm_key(
            row_delete_asked(app),
            question,
            key,
            today,
        ).app.data == app.data.with_tasks(i, app.data.lists[i].tasks.remove(j)).pruned(today),
{
    reveal(row_toggled);
    reveal(row_delete_asked);
    reveal(task_deleted);
    edits_reach_one_task(app.data, i, j, toggle(today));
}

/// So it is in an open task: completing it changes that task, and deleting it takes that task out.
pub proof fn keys_reach_the_open_task(app: AppModel, key: KeyPress, today: int, i: int, j: int)
    requires
        is_numbered(app.data),
        0 <= i < app.data.lists.len(),
        0 <= j < app.data.lists[i].tasks.len(),
        is_yes(key.code),
    ensures
        ({
            let task = app.data.lists[i].tasks[j];
            let open = TaskKey { list_id: app.data.lists[i].id, task_id: task.id };
            &&& task_toggled(app, open, today).app.data == app.data.with_task(
                i,
                j,
                toggle(today)(task),
            ).pruned(today)
            &&& task_delete_asked(app, open).confirm matches Some(question) && confirm_key(
                task_delete_asked(app, open),
                question,
                key,
                today,
            ).app.data == app.data.with_tasks(i, app.data.lists[i].tasks.remove(j)).pruned(today)
        }),
{
    reveal(task_toggled);
    reveal(task_delete_asked);
    reveal(task_deleted);
    edits_reach_one_task(app.data, i, j, toggle(today));
}

/// The tasks of all lists, each without its number and as often as it stands there.
pub open spec fn all_tasks(lists: Seq<ListModel>) -> Multiset<TaskModel>
    decreases lists.len(),
{
    if lists.len() == 0 {
        Multiset::empty()
    } else {
        all_tasks(lists.drop_last()).add(unnumbered_list(lists.last()).tasks.to_multiset())
    }
}

/// The first tasks of a list are still those of before, perhaps edited.
pub open spec fn holds_tasks(before: Seq<TaskModel>, after: Seq<TaskModel>) -> bool {
    &&& before.len() <= after.len()
    &&& forall|j: int| 0 <= j < before.len() ==> (#[trigger] after[j]).id == before[j].id
}

/// The first lists are still those of before, perhaps edited.
pub open spec fn holds_lists(before: Seq<ListModel>, after: Seq<ListModel>) -> bool {
    &&& before.len() <= after.len()
    &&& forall|i: int| 0 <= i < before.len() ==> (#[trigger] after[i]).id == before[i].id
}

/// Each task stands where it stood, perhaps edited.
pub open spec fn holds_all_tasks(before: Seq<ListModel>, after: Seq<ListModel>) -> bool {
    forall|i: int|
        0 <= i < before.len() ==> holds_tasks(before[i].tasks, (#[trigger] after[i]).tasks)
}

/// No list and no task is lost: all lists are there, and each task stands where it stood, perhaps
/// edited, or all tasks stand in some list as they were but for their numbers.
pub open spec fn keeps_every_task(before: DataModel, after: DataModel) -> bool {
    &&& holds_lists(before.lists, after.lists)
    &&& holds_all_tasks(before.lists, after.lists) || all_tasks(before.lists) == all_tasks(
        after.lists,
    )
}

/// No list and no task is lost, but for tasks that are overdue then.
pub open spec fn loses_nothing(before: DataModel, after: DataModel, today: int) -> bool {
    exists|whole: DataModel| #[trigger]
        keeps_every_task(before, whole) && (after == whole || after == whole.pruned(today))
}

proof fn the_same_loses_nothing(data: DataModel, today: int)
    ensures
        loses_nothing(data, data, today),
{
    assert(keeps_every_task(data, data));
}

proof fn settling_loses_nothing(app: AppModel, after: Option<DataModel>, today: int)
    requires
        after matches Some(whole) ==> keeps_every_task(app.data, whole),
    ensures
        settled(after, today) matches Some(data) ==> loses_nothing(app.data, data, today),
        loses_nothing(app.data, edited(app, settled(after, today)).app.data, today),
{
    the_same_loses_nothing(app.data, today);
}

proof fn task_edits_lose_nothing(
    data: DataModel,
    key: TaskKey,
    edit: spec_fn(TaskModel) -> TaskModel,
)
    requires
        keeps_number(edit),
    ensures
        data.edited_task(key, edit) matches Some(after) ==> holds_lists(data.lists, after.lists)
            && holds_all_tasks(data.lists, after.lists) && after.lists.len() == data.lists.len(),
{
    if let Some((i, j)) = data.position(key) {
        assert(is_first_where(data.lists, has_list_id(key.list_id), i));
        assert(is_first_where(data.lists[i].tasks, has_task_id(key.task_id), j));
    }
}

proof fn list_edits_lose_nothing(
    data: DataModel,
    list_id: u64,
    edit: spec_fn(ListModel) -> ListModel,
)
    requires
        keeps_list(edit),
    ensures
        data.edited_list(list_id, edit) matches Some(after) ==> keeps_every_task(data, after),
{
    if let Some(i) = data.list_index(list_id) {
        assert(is_first_where(data.lists, has_list_id(list_id), i));
    }
}

proof fn creating_loses_nothing(data: DataModel, list_id: u64, today: int)
    ensures
        data.with_new_task(list_id, today) matches Some(after) ==> keeps_every_task(data, after),
        keeps_every_task(data, data.with_new_list()),
{
    if let Some(i) = data.list_index(list_id) {
        assert(is_first_where(data.lists, has_list_id(list_id), i));
    }
}

proof fn another_list(lists: Seq<ListModel>, i: int, list: ListModel)
    requires
        0 <= i < lists.len(),
    ensures
        all_tasks(lists.update(i, list)).add(unnumbered_list(lists[i]).tasks.to_multiset())
            == all_tasks(lists).add(unnumbered_list(list).tasks.to_multiset()),
    decreases lists.len(),
{
    let after = lists.update(i, list);
    let old_tasks = unnumbered_list(lists[i]).tasks.to_multiset();
    let new_tasks = unnumbered_list(list).tasks.to_multiset();
    let rest = lists.drop_last();
    if i == lists.len() - 1 {
        assert(after.drop_last() == rest);
        assert(all_tasks(after).add(old_tasks) =~= all_tasks(lists).add(new_tasks));
    } else {
        assert(after.drop_last() == rest.update(i, list));
        assert(after.last() == lists.last());
        another_list(rest, i, list);
        assert forall|x: TaskModel| #[trigger] all_tasks(after).add(old_tasks).count(x)
            == all_tasks(lists).add(new_tasks).count(x) by {
            assert(all_tasks(rest.update(i, list)).add(old_tasks).count(x) == all_tasks(rest).add(
                new_tasks,
            ).count(x));
        }
        assert(all_tasks(after).add(old_tasks) =~= all_tasks(lists).add(new_tasks));
    }
}

proof fn moving_loses_nothing(data: DataModel, key: TaskKey, target_list_id: u64)
    ensures
        data.with_task_moved(key, target_list_id) matches Some(after) ==> holds_lists(
            data.lists,
            after.lists,
        ) && all_tasks(data.lists) == all_tasks(after.lists) && after.lists.len()
            == data.lists.len(),
{
    broadcast use group_to_multiset_ensures;

    if let Some(after) = data.with_task_moved(key, target_list_id) {
        let (i, j) = data.position(key).unwrap();
        let t = data.list_index(target_list_id).unwrap();
        assert(is_first_where(data.lists, has_list_id(key.list_id), i));
        assert(is_first_where(data.lists, has_list_id(target_list_id), t));
        let from = data.lists[i].tasks;
        let to = data.lists[t].tasks;
        assert(is_first_where(from, has_task_id(key.task_id), j));
        let taken = data.with_tasks(i, from.remove(j));
        let moved = after.lists[t].tasks.last();
        let x = unnumbered_task(from[j]);
        assert(taken.lists[t] == data.lists[t]);
        assert(after.lists == taken.lists.update(t, after.lists[t]));
        assert(unnumbered_task(moved) == x);
        let list_from = unnumbered_list(data.lists[i]).tasks;
        let list_to = unnumbered_list(data.lists[t]).tasks;
        assert(unnumbered_list(taken.lists[i]).tasks =~= list_from.remove(j));
        assert(unnumbered_list(after.lists[t]).tasks =~= list_to.push(x));
        assert(list_from[j] == x);
        assert(list_from.remove(j).to_multiset() == list_from.to_multiset().remove(x));
        assert(list_from.to_multiset().contains(x)) by {
            assert(list_from.contains(x));
        }
        assert(list_to.push(x).to_multiset() == list_to.to_multiset().insert(x));
        another_list(data.lists, i, taken.lists[i]);
        another_list(taken.lists, t, after.lists[t]);
        let a = all_tasks(data.lists);
        let b = all_tasks(taken.lists);
        let c = all_tasks(after.lists);
        assert forall|y: TaskModel| #[trigger] a.count(y) == c.count(y) by {
            assert(b.add(list_from.to_multiset()).count(y) == a.add(
                list_from.to_multiset().remove(x),
            ).count(y));
            assert(c.add(list_to.to_multiset()).count(y) == b.add(
                list_to.to_multiset().insert(x),
            ).count(y));
        }
        assert(a =~= c);
    }
}

proof fn many_edits_lose_nothing(data: DataModel, keys: Seq<TaskKey>, day: int, list_id: u64)
    ensures
        ({
            let dated = data.for_keys(keys, due_date_step(day)).lists;
            let moved = data.for_keys(keys, move_step(list_id)).lists;
            &&& holds_lists(data.lists, dated) && holds_all_tasks(data.lists, dated) && dated.len()
                == data.lists.len()
            &&& holds_lists(data.lists, moved) && all_tasks(data.lists) == all_tasks(moved)
                && moved.len() == data.lists.len()
        }),
    decreases keys.len(),
{
    if keys.len() > 0 {
        let rest = keys.drop_last();
        many_edits_lose_nothing(data, rest, day, list_id);
        let dated = data.for_keys(rest, due_date_step(day));
        task_edits_lose_nothing(dated, keys.last(), set_due_date(day));
        moving_loses_nothing(data.for_keys(rest, move_step(list_id)), keys.last(), list_id);
        let after = data.for_keys(keys, due_date_step(day));
        assert forall|i: int| 0 <= i < data.lists.len() implies holds_tasks(
            data.lists[i].tasks,
            (#[trigger] after.lists[i]).tasks,
        ) by {
            assert(holds_tasks(data.lists[i].tasks, dated.lists[i].tasks));
            assert(holds_tasks(dated.lists[i].tasks, after.lists[i].tasks));
        }
    }
}

proof fn fields_lose_nothing(app: AppModel, target: EditTarget, input: Seq<char>, today: int)
    ensures
        match target {
            EditTarget::Task(key, field) => task_field_set(
                app.data,
                key,
                field,
                input,
                today,
            ) matches Some(data) ==> loses_nothing(app.data, data, today),
            EditTarget::List(list_id, field) => list_field_set(
                app.data,
                list_id,
                field,
                input,
                today,
            ) matches Some(data) ==> loses_nothing(app.data, data, today),
        },
{
    let data = app.data;
    match target {
        EditTarget::Task(key, field) => {
            let hours = match parsed_number(input, u32::MAX as nat) {
                Some(value) => value as u32,
                None => 0,
            };
            let day = match parsed_day(trimmed(input)) {
                Some(day) => day,
                None => 0,
            };
            task_edits_lose_nothing(data, key, set_title(trimmed(input)));
            task_edits_lose_nothing(data, key, set_estimated(hours));
            task_edits_lose_nothing(data, key, set_actual(hours));
            task_edits_lose_nothing(data, key, set_due_date(day));
            settling_loses_nothing(app, data.edited_task(key, set_title(trimmed(input))), today);
            settling_loses_nothing(app, data.edited_task(key, set_estimated(hours)), today);
            settling_loses_nothing(app, data.edited_task(key, set_actual(hours)), today);
            settling_loses_nothing(app, data.edited_task(key, set_due_date(day)), today);
        },
        EditTarget::List(list_id, field) => {
            let priority = match parsed_number(input, u8::MAX as nat) {
                Some(value) => value as u8,
                None => 0,
            };
            let color = crate::color::normalized_color(input);
            list_edits_lose_nothing(data, list_id, set_name(trimmed(input)));
            list_edits_lose_nothing(data, list_id, set_priority(priority));
            list_edits_lose_nothing(data, list_id, set_color(color));
            settling_loses_nothing(
                app,
                data.edited_list(list_id, set_name(trimmed(input))),
                today,
            );
            settling_loses_nothing(app, data.edited_list(list_id, set_priority(priority)), today);
            settling_loses_nothing(app, data.edited_list(list_id, set_color(color)), today);
        },
    }
}

proof fn rows_lose_nothing(app: AppModel, delta: int, today: int)
    ensures
        row_moved(app, delta).data == app.data,
        rows_selected(app, delta).data == app.data,
        row_opened(app).data == app.data,
        loses_nothing(app.data, row_toggled(app, today).app.data, today),
        row_delete_asked(app).data == app.data,
        sort_toggled(app).data == app.data,
        order_toggled(app).data == app.data,
{
    reveal(row_moved);
    reveal(rows_selected);
    reveal(row_opened);
    reveal(multi_edit_opened);
    reveal(row_toggled);
    reveal(row_delete_asked);
    reveal(sort_toggled);
    reveal(order_toggled);
    the_same_loses_nothing(app.data, today);
    if app.current_index() < app.current_items().len() {
        let key = app.current_items()[app.current_index() as int].key;
        task_edits_lose_nothing(app.data, key, toggle(today));
        settling_loses_nothing(app, app.data.edited_task(key, toggle(today)), today);
    }
}

proof fn created_tasks_lose_nothing(app: AppModel, list_id: u64, today: int, in_list: bool)
    ensures
        loses_nothing(app.data, task_created(app, list_id, today, in_list).app.data, today),
{
    reveal(task_created);
    creating_loses_nothing(app.data, list_id, today);
    settling_loses_nothing(app, app.data.with_new_task(list_id, today), today);
    the_same_loses_nothing(app.data, today);
}

proof fn open_lists_lose_nothing(app: AppModel, list_id: u64, key: KeyPress, today: int)
    ensures
        loses_nothing(app.data, open_list_key(app, list_id, key, today).app.data, today),
{
    the_same_loses_nothing(app.data, today);
    rows_lose_nothing(app, 1, today);
    rows_lose_nothing(app, -1, today);
    reveal(list_edit_started);
    created_tasks_lose_nothing(app, list_id, today, true);
}

proof fn main_page_loses_nothing(app: AppModel, key: KeyPress, today: int)
    ensures
        loses_nothing(app.data, main_key(app, key, today).app.data, today),
{
    the_same_loses_nothing(app.data, today);
    rows_lose_nothing(app, 1, today);
    rows_lose_nothing(app, -1, today);
    let ranked = crate::items::list_items(app.data.lists, crate::task::ListSortMode::Priority);
    if ranked.len() > 0 {
        created_tasks_lose_nothing(app, ranked[0].list_id, today, false);
    }
    reveal(main_task_created);
    reveal(quit);
    reveal(page_shown);
    reveal(search_started);
    reveal(search_cleared);
    reveal(notes_opened);
}

proof fn list_page_loses_nothing(app: AppModel, key: KeyPress, today: int)
    ensures
        loses_nothing(app.data, list_page_key(app, key, today).app.data, today),
{
    the_same_loses_nothing(app.data, today);
    creating_loses_nothing(app.data, 0, today);
    settling_loses_nothing(app, Some(app.data.with_new_list()), today);
    reveal(quit);
    reveal(page_shown);
    reveal(notes_opened);
    reveal(list_search_started);
    reveal(list_sort_toggled);
    reveal(list_order_toggled);
    reveal(list_moved);
    reveal(selected_list_opened);
    reveal(list_delete_asked);
    reveal(list_created);
}

proof fn multi_edits_lose_nothing(app: AppModel, state: MultiModel, key: KeyPress, today: int)
    ensures
        loses_nothing(app.data, multi_key(app, state, key, today).app.data, today),
{
    the_same_loses_nothing(app.data, today);
    let input = state.input.text;
    if key.code == KeyCode::Enter {
        reveal(multi_date_taken);
        reveal(multi_list_taken);
        let day = match parsed_day(trimmed(input)) {
            Some(day) => day,
            None => 0,
        };
        let list_id = match chosen_list(app.data.lists, input, state.suggestion_index) {
            Some(list_id) => list_id,
            None => 0,
        };
        let dated = app.data.edited_by_keys(state.keys, due_date_step(day));
        let moved = app.data.edited_by_keys(state.keys, move_step(list_id));
        many_edits_lose_nothing(app.data, state.keys, day, list_id);
        settling_loses_nothing(app, dated, today);
        settling_loses_nothing(app, moved, today);
    } else {
        reveal(multi_delete_asked);
    }
}

proof fn editors_lose_nothing(app: AppModel, editor: EditorModel, key: KeyPress, today: int)
    ensures
        loses_nothing(app.data, editor_key(app, editor, key, today).app.data, today),
{
    the_same_loses_nothing(app.data, today);
    let input = editor.input.text;
    if key.code == KeyCode::Enter {
        let closed = AppModel { editor: None, ..app };
        reveal(field_taken);
        reveal(list_chosen);
        fields_lose_nothing(closed, editor.target, input, today);
        if let EditTarget::Task(task_key, _) = editor.target {
            if let Some(list_id) = chosen_list(app.data.lists, input, editor.suggestion_index) {
                moving_loses_nothing(app.data, task_key, list_id);
                settling_loses_nothing(
                    closed,
                    app.data.with_task_moved(task_key, list_id),
                    today,
                );
            }
        }
    }
}

proof fn open_tasks_lose_nothing(app: AppModel, task_key: TaskKey, key: KeyPress, today: int)
    ensures
        loses_nothing(app.data, open_task_key(app, task_key, key, today).app.data, today),
{
    the_same_loses_nothing(app.data, today);
    reveal(task_toggled);
    reveal(description_opened);
    reveal(task_edit_started);
    reveal(task_delete_asked);
    task_edits_lose_nothing(app.data, task_key, toggle(today));
    settling_loses_nothing(app, app.data.edited_task(task_key, toggle(today)), today);
}

/// Nothing is deleted unasked: while no question is answered with yes, all lists are there after
/// every key, and each task that is not overdue then is too, where it was or moved to another list.
pub proof fn nothing_is_deleted_unasked(app: AppModel, key: KeyPress, today: int)
    requires
        app.multi_task_edit is Some || app.confirm is None || !is_yes(key.code),
    ensures
        loses_nothing(app.data, pressed(app, key, today).app.data, today),
{
    the_same_loses_nothing(app.data, today);
    if let Some(state) = app.multi_task_edit {
        multi_edits_lose_nothing(app, state, key, today);
    } else if app.confirm is Some {
    } else if app.show_popup {
    } else if let Some(editor) = app.editor {
        editors_lose_nothing(app, editor, key, today);
    } else if let Some(task_key) = app.expanded_task_key {
        open_tasks_lose_nothing(app, task_key, key, today);
    } else if let Some(list_id) = app.expanded_list_id {
        open_lists_lose_nothing(app, list_id, key, today);
    } else {
        main_page_loses_nothing(app, key, today);
        list_page_loses_nothing(app, key, today);
    }
}

/// So it is with a text that comes back from the text editor.
pub proof fn texts_lose_nothing(
    app: AppModel,
    purpose: TextPurpose,
    content: Result<Seq<char>, Seq<char>>,
    today: int,
)
    ensures
        loses_nothing(app.data, text_edited(app, purpose, content, today).app.data, today),
{
    the_same_loses_nothing(app.data, today);
    if let Ok(text) = content {
        if let TextPurpose::Description(key) = purpose {
            let edit = set_description(without_help(text));
            task_edits_lose_nothing(app.data, key, edit);
            settling_loses_nothing(app, app.data.edited_task(key, edit), today);
        }
    }
}

/// What is not lost is there: a task that is not overdue is kept when the others are removed.
pub proof fn what_is_not_overdue_is_kept(before: DataModel, after: DataModel, today: int)
    requires
        loses_nothing(before, after, today),
    ensures
        exists|whole: DataModel| #[trigger]
            keeps_every_task(before, whole) && forall|i: int, j: int|
                0 <= i < whole.lists.len() && 0 <= j < whole.lists[i].tasks.len()
                    && !is_overdue(#[trigger] whole.lists[i].tasks[j], today)
                    ==> after.lists[i].tasks.contains(whole.lists[i].tasks[j]),
{
    let whole = choose|whole: DataModel| #[trigger]
        keeps_every_task(before, whole) && (after == whole || after == whole.pruned(today));
    assert forall|i: int, j: int|
        0 <= i < whole.lists.len() && 0 <= j < whole.lists[i].tasks.len()
            && !is_overdue(
            #[trigger] whole.lists[i].tasks[j],
            today,
        ) implies after.lists[i].tasks.contains(whole.lists[i].tasks[j]) by {
        let tasks = whole.lists[i].tasks;
        assert(tasks.contains(tasks[j]));
        filter_has(tasks, not_overdue(today), tasks[j]);
    }
}

} // verus!
