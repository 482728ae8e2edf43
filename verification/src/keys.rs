//! What the keys do on the two pages, in an open list and in an open task.

use vstd::prelude::*;
use vstd::string::*;

use crate::data::{settled, toggle};
use crate::date::Date;
use crate::effects::{edited, idle, AfterSave, Effect, EffectModel, Step, TextPurpose};
use crate::input::{line_of, KeyCode, KeyPress, LineInput};
use crate::items::list_items;
use crate::labels::{empty_if_blank, shown_text};
use crate::scratchpad::{add_help, with_help};
use crate::seqs::filter_push;
use crate::sorting::views;
use crate::state::{
    all_differ, clamp_index, clamped, shift_index, shifted, ActionModel, App, AppModel,
    ConfirmAction, ConfirmModel, ConfirmState, EditTarget, EditorModel, EditorState, ListField,
    MultiModel, MultiTaskEditMode, MultiTaskEditState, Page, TaskField,
};
use crate::task::{ListSortMode, TaskItemModel, TaskKey, TaskSortMode, TaskViewItem};
use crate::text::{decimal, to_decimal};

verus! {

pub open spec fn other_task_sort_mode(mode: TaskSortMode) -> TaskSortMode {
    match mode {
        TaskSortMode::DueDate => TaskSortMode::TimeLeft,
        TaskSortMode::TimeLeft => TaskSortMode::DueDate,
    }
}

pub fn toggle_task_sort_mode(mode: TaskSortMode) -> (res: TaskSortMode)
    ensures
        res == other_task_sort_mode(mode),
{
    match mode {
        TaskSortMode::DueDate => TaskSortMode::TimeLeft,
        TaskSortMode::TimeLeft => TaskSortMode::DueDate,
    }
}

pub open spec fn other_list_sort_mode(mode: ListSortMode) -> ListSortMode {
    match mode {
        ListSortMode::RemainingCount => ListSortMode::Priority,
        ListSortMode::Priority => ListSortMode::RemainingCount,
    }
}

pub fn toggle_list_sort_mode(mode: ListSortMode) -> (res: ListSortMode)
    ensures
        res == other_list_sort_mode(mode),
{
    match mode {
        ListSortMode::RemainingCount => ListSortMode::Priority,
        ListSortMode::Priority => ListSortMode::RemainingCount,
    }
}

/// Keys without repetitions, each where it stands first.
pub open spec fn distinct(keys: Seq<TaskKey>) -> Seq<TaskKey>
    decreases keys.len(),
{
    if keys.len() == 0 {
        Seq::empty()
    } else {
        let before = distinct(keys.drop_last());
        if before.contains(keys.last()) {
            before
        } else {
            before.push(keys.last())
        }
    }
}

/// No key is left out, and none stands there twice.
pub proof fn distinct_is_distinct(keys: Seq<TaskKey>)
    ensures
        distinct(keys).no_duplicates(),
        forall|key: TaskKey| #[trigger] distinct(keys).contains(key) <==> keys.contains(key),
    decreases keys.len(),
{
    if keys.len() > 0 {
        let rest = keys.drop_last();
        distinct_is_distinct(rest);
        let before = distinct(rest);
        let all = distinct(keys);
        assert forall|key: TaskKey| #[trigger] all.contains(key) <==> keys.contains(key) by {
            if keys.contains(key) {
                let k = choose|k: int| 0 <= k < keys.len() && keys[k] == key;
                if k < rest.len() {
                    assert(rest[k] == key);
                    assert(rest.contains(key));
                    assert(before.contains(key));
                    let b = choose|b: int| 0 <= b < before.len() && before[b] == key;
                    assert(all[b] == key);
                } else if !before.contains(key) {
                    assert(all[before.len() as int] == key);
                }
            }
            if all.contains(key) {
                let a = choose|a: int| 0 <= a < all.len() && all[a] == key;
                if a < before.len() {
                    assert(before[a] == key);
                    assert(before.contains(key));
                    let k = choose|k: int| 0 <= k < rest.len() && rest[k] == key;
                    assert(keys[k] == key);
                } else {
                    assert(keys[keys.len() - 1] == key);
                }
            }
        }
    }
}

pub open spec fn item_keys(items: Seq<TaskItemModel>) -> Seq<TaskKey> {
    items.map_values(|item: TaskItemModel| item.key)
}

/// With the selected row moved.
#[verifier::opaque]
pub open spec fn row_moved(app: AppModel, delta: int) -> AppModel {
    app.unselected().with_current_index(
        shifted(app.current_index(), app.current_items().len(), delta),
    )
}

/// Where a selection of several rows begins.
pub open spec fn anchor_of(app: AppModel) -> usize {
    match app.task_selection_anchor {
        Some(anchor) => anchor,
        None => clamped(app.current_index(), app.current_items().len()),
    }
}

/// The keys of the rows between two, with these.
pub open spec fn range_keys(items: Seq<TaskItemModel>, a: usize, b: usize) -> Seq<TaskKey> {
    if a < b {
        distinct(item_keys(items.subrange(a as int, b + 1)))
    } else {
        distinct(item_keys(items.subrange(b as int, a + 1)))
    }
}

/// With the selected row moved, and all rows selected from where that began.
#[verifier::opaque]
pub open spec fn rows_selected(app: AppModel, delta: int) -> AppModel {
    let items = app.current_items();
    if items.len() == 0 {
        app.unselected()
    } else {
        let next = shifted(clamped(app.current_index(), items.len()), items.len(), delta);
        AppModel {
            task_selection_anchor: Some(anchor_of(app)),
            multi_selected_tasks: range_keys(items, anchor_of(app), next),
            ..app.with_current_index(next)
        }
    }
}

pub open spec fn is_selected(keys: Seq<TaskKey>) -> spec_fn(TaskItemModel) -> bool {
    |item: TaskItemModel| keys.contains(item.key)
}

/// The keys of the rows that are selected.
pub open spec fn selected_keys(app: AppModel) -> Seq<TaskKey> {
    item_keys(app.current_items().filter(is_selected(app.multi_selected_tasks)))
}

/// With the selected tasks being edited.
#[verifier::opaque]
pub open spec fn multi_edit_opened(app: AppModel) -> AppModel {
    if selected_keys(app).len() < 2 {
        app
    } else {
        AppModel {
            multi_task_edit: Some(
                MultiModel {
                    keys: selected_keys(app),
                    mode: MultiTaskEditMode::Menu,
                    input: line_of(Seq::empty()),
                    suggestion_index: 0,
                },
            ),
            ..app
        }
    }
}

/// With the task of the selected row open, or where several are selected, with these being edited.
#[verifier::opaque]
pub open spec fn row_opened(app: AppModel) -> AppModel {
    if app.multi_selected_tasks.len() > 1 {
        multi_edit_opened(app)
    } else if app.current_index() < app.current_items().len() {
        AppModel {
            expanded_task_key: Some(app.current_items()[app.current_index() as int].key),
            ..app.unselected()
        }
    } else {
        app
    }
}

/// With the selected row among the rows.
pub open spec fn row_in_range(app: AppModel) -> AppModel {
    if app.expanded_list_id is Some {
        app.list_task_in_range()
    } else {
        app.main_in_range()
    }
}

/// With the task of the selected row completed, or no longer completed.
#[verifier::opaque]
pub open spec fn row_toggled(app: AppModel, today: int) -> Step {
    if app.current_index() < app.current_items().len() {
        let key = app.current_items()[app.current_index() as int].key;
        let step = edited(app, settled(app.data.edited_task(key, toggle(today)), today));
        Step { app: row_in_range(step.app.unselected()), ..step }
    } else {
        idle(app)
    }
}

pub open spec fn delete_question(title: Seq<char>) -> Seq<char> {
    "Delete task '"@ + title + "'?"@
}

/// With the question whether to delete the task of the selected row.
#[verifier::opaque]
pub open spec fn row_delete_asked(app: AppModel) -> AppModel {
    if app.current_index() < app.current_items().len() {
        let item = app.current_items()[app.current_index() as int];
        AppModel {
            confirm: Some(
                ConfirmModel {
                    message: delete_question(shown_text(item.title)),
                    action: ActionModel::DeleteTask(item.key),
                },
            ),
            ..app.unselected()
        }
    } else {
        app
    }
}

/// With tasks sorted the other way.
#[verifier::opaque]
pub open spec fn sort_toggled(app: AppModel) -> AppModel {
    (AppModel { main_sort_mode: other_task_sort_mode(app.main_sort_mode), ..app }).with_current_index(
        0,
    ).unselected()
}

/// With the order by time left turned round; in the order by due date, with completed tasks hidden
/// or shown.
#[verifier::opaque]
pub open spec fn order_toggled(app: AppModel) -> AppModel {
    (if app.main_sort_mode == TaskSortMode::TimeLeft {
        AppModel { time_left_reversed: !app.time_left_reversed, ..app }
    } else {
        AppModel { show_completed_in_due_mode: !app.show_completed_in_due_mode, ..app }
    }).with_current_index(0).unselected()
}

pub open spec fn notes_help() -> Seq<Seq<char>> {
    seq![
        "# Notes editor"@,
        "#"@,
        "# Edit freely, then save and quit with :wq"@,
        "# Quit without saving with :q!"@,
        "# Lines in this help block are ignored when saved"@,
    ]
}

pub open spec fn description_help() -> Seq<Seq<char>> {
    seq![
        "# Task description editor"@,
        "#"@,
        "# Write any task details you want to keep"@,
        "# Save and quit with :wq"@,
        "# Quit without saving with :q!"@,
        "# Lines in this help block are ignored when saved"@,
    ]
}

/// The notes are handed to the text editor.
#[verifier::opaque]
pub open spec fn notes_opened(app: AppModel) -> Step {
    Step {
        app,
        effect: EffectModel::EditText(
            TextPurpose::Notes,
            with_help(notes_help(), app.notes_text),
        ),
    }
}

/// The description of a task is handed to the text editor.
#[verifier::opaque]
pub open spec fn description_opened(app: AppModel, key: TaskKey) -> Step {
    match app.data.task(key) {
        Some(task) => Step {
            app,
            effect: EffectModel::EditText(
                TextPurpose::Description(key),
                with_help(description_help(), task.description),
            ),
        },
        None => idle(app),
    }
}

/// With a new task in a list.
#[verifier::opaque]
pub open spec fn task_created(app: AppModel, list_id: u64, today: int, in_list: bool) -> Step {
    match settled(app.data.with_new_task(list_id, today), today) {
        Some(data) => {
            let key = TaskKey { list_id, task_id: app.data.next_task_id };
            Step {
                app: AppModel { data, ..app },
                effect: EffectModel::Save(
                    if in_list {
                        AfterSave::OpenListTask(key)
                    } else {
                        AfterSave::OpenMainTask(key)
                    },
                ),
            }
        },
        None => idle(app),
    }
}

/// With a new task in the list of the highest priority.
#[verifier::opaque]
pub open spec fn main_task_created(app: AppModel, today: int) -> Step {
    let ranked = list_items(app.data.lists, ListSortMode::Priority);
    if ranked.len() == 0 {
        idle(app.told("no task list available for new task"@))
    } else {
        task_created(app, ranked[0].list_id, today, false)
    }
}

/// What a key does in the search line of the main page.
pub open spec fn search_key(app: AppModel, key: KeyPress) -> AppModel {
    match key.code {
        KeyCode::Esc => AppModel {
            search_active: false,
            search: line_of(Seq::empty()),
            selected_main_idx: 0,
            ..app
        },
        KeyCode::Enter => AppModel { search_active: false, ..app },
        KeyCode::Backspace | KeyCode::Delete | KeyCode::End => AppModel {
            search: app.search.edited(key.code),
            selected_main_idx: 0,
            ..app
        },
        KeyCode::Char(c) => if key.control {
            app
        } else {
            AppModel { search: app.search.inserted(c), selected_main_idx: 0, ..app }
        },
        _ => AppModel { search: app.search.edited(key.code), ..app },
    }
}

/// With the program about to end.
#[verifier::opaque]
pub open spec fn quit(app: AppModel) -> AppModel {
    AppModel { running: false, ..app }
}

/// With the other page in front.
#[verifier::opaque]
pub open spec fn page_shown(app: AppModel, page: Page) -> AppModel {
    AppModel { page, ..app.unselected() }
}

/// With the search line of the main page being typed in.
#[verifier::opaque]
pub open spec fn search_started(app: AppModel) -> AppModel {
    AppModel { search_active: true, search: app.search.moved_end(), ..app }
}

/// With the search line of the main page empty.
#[verifier::opaque]
pub open spec fn search_cleared(app: AppModel) -> AppModel {
    (AppModel { search: line_of(Seq::empty()), selected_main_idx: 0, ..app }).unselected()
}

/// What a key does on the main page.
pub open spec fn main_key(app: AppModel, key: KeyPress, today: int) -> Step {
    match key.code {
        KeyCode::Esc => idle(search_cleared(app)),
        KeyCode::Down => idle(
            if key.shift {
                rows_selected(app, 1)
            } else {
                row_moved(app, 1)
            },
        ),
        KeyCode::Up => idle(
            if key.shift {
                rows_selected(app, -1)
            } else {
                row_moved(app, -1)
            },
        ),
        KeyCode::Enter => idle(row_opened(app)),
        KeyCode::Delete | KeyCode::Backspace => idle(row_delete_asked(app)),
        KeyCode::Char(c) => if c == 'q' {
            idle(quit(app))
        } else if c == '/' {
            idle(search_started(app))
        } else if c == 'u' {
            idle(page_shown(app, Page::TaskLists))
        } else if c == 'n' {
            main_task_created(app, today)
        } else if c == 'o' {
            notes_opened(app)
        } else if c == 'x' {
            idle(sort_toggled(app))
        } else if c == 'c' {
            idle(order_toggled(app))
        } else if c == 'J' {
            idle(rows_selected(app, 1))
        } else if c == 'K' {
            idle(rows_selected(app, -1))
        } else if c == 'j' {
            idle(row_moved(app, 1))
        } else if c == 'k' {
            idle(row_moved(app, -1))
        } else if c == 'a' {
            row_toggled(app, today)
        } else if c == 'd' {
            idle(row_delete_asked(app))
        } else {
            idle(app)
        },
        _ => idle(app),
    }
}

/// What a key does in the search line of the task list page.
pub open spec fn list_search_key(app: AppModel, key: KeyPress) -> AppModel {
    match key.code {
        KeyCode::Esc => AppModel {
            list_search_active: false,
            list_search: line_of(Seq::empty()),
            selected_list_idx: 0,
            ..app
        },
        KeyCode::Enter => AppModel { list_search_active: false, ..app },
        KeyCode::Backspace | KeyCode::Delete => AppModel {
            list_search: app.list_search.edited(key.code),
            selected_list_idx: 0,
            ..app
        },
        KeyCode::Char(c) => if key.control {
            app
        } else {
            AppModel { list_search: app.list_search.inserted(c), selected_list_idx: 0, ..app }
        },
        _ => AppModel { list_search: app.list_search.edited(key.code), ..app },
    }
}

/// With the selected list moved.
#[verifier::opaque]
pub open spec fn list_moved(app: AppModel, delta: int) -> AppModel {
    AppModel {
        selected_list_idx: shifted(app.selected_list_idx, app.page_lists().len(), delta),
        ..app.unselected()
    }
}

/// With the selected list open.
#[verifier::opaque]
pub open spec fn selected_list_opened(app: AppModel) -> AppModel {
    if app.selected_list_idx < app.page_lists().len() {
        AppModel {
            expanded_list_id: Some(app.page_lists()[app.selected_list_idx as int].list_id),
            selected_list_task_idx: 0,
            ..app.unselected()
        }
    } else {
        app
    }
}

/// With the question whether to delete the selected list.
#[verifier::opaque]
pub open spec fn list_delete_asked(app: AppModel) -> AppModel {
    if app.selected_list_idx < app.page_lists().len() {
        let item = app.page_lists()[app.selected_list_idx as int];
        AppModel {
            confirm: Some(
                ConfirmModel {
                    message: "Delete task list '"@ + item.name + "' and all its tasks?"@,
                    action: ActionModel::DeleteList(item.list_id),
                },
            ),
            ..app
        }
    } else {
        app
    }
}

/// With the search line of the task list page being typed in.
#[verifier::opaque]
pub open spec fn list_search_started(app: AppModel) -> AppModel {
    AppModel { list_search_active: true, list_search: app.list_search.moved_end(), ..app }
}

/// With lists sorted the other way.
#[verifier::opaque]
pub open spec fn list_sort_toggled(app: AppModel) -> AppModel {
    AppModel {
        list_sort_mode: other_list_sort_mode(app.list_sort_mode),
        selected_list_idx: 0,
        ..app
    }
}

/// With the order of lists turned round.
#[verifier::opaque]
pub open spec fn list_order_toggled(app: AppModel) -> AppModel {
    AppModel { list_sort_reversed: !app.list_sort_reversed, selected_list_idx: 0, ..app }
}

/// With a new list.
#[verifier::opaque]
pub open spec fn list_created(app: AppModel, today: int) -> Step {
    Step {
        app: AppModel { data: app.data.with_new_list().pruned(today), ..app },
        effect: EffectModel::Save(AfterSave::OpenList(app.data.next_list_id)),
    }
}

/// What a key does on the task list page.
pub open spec fn list_page_key(app: AppModel, key: KeyPress, today: int) -> Step {
    match key.code {
        KeyCode::Down => idle(list_moved(app, 1)),
        KeyCode::Up => idle(list_moved(app, -1)),
        KeyCode::Enter => idle(selected_list_opened(app)),
        KeyCode::Delete | KeyCode::Backspace => idle(list_delete_asked(app)),
        KeyCode::Char(c) => if c == 'q' {
            idle(quit(app))
        } else if c == 'u' {
            idle(page_shown(app, Page::Main))
        } else if c == '/' {
            idle(list_search_started(app))
        } else if c == 'o' {
            notes_opened(app)
        } else if c == 'x' {
            idle(list_sort_toggled(app))
        } else if c == 'c' {
            idle(list_order_toggled(app))
        } else if c == 'j' {
            idle(list_moved(app, 1))
        } else if c == 'k' {
            idle(list_moved(app, -1))
        } else if c == 'n' {
            list_created(app, today)
        } else if c == 'd' {
            idle(list_delete_asked(app))
        } else {
            idle(app)
        },
        _ => idle(app),
    }
}

/// The text that the line begins with when a field of a list is edited.
pub open spec fn list_field_text(list: crate::task::ListModel, field: ListField) -> Seq<char> {
    match field {
        ListField::Name => list.name,
        ListField::Priority => decimal(list.priority as nat),
        ListField::Color => list.color_hex,
    }
}

/// With a field of the open list being edited.
#[verifier::opaque]
pub open spec fn list_edit_started(app: AppModel, field: ListField) -> AppModel {
    match app.expanded_list_id {
        Some(list_id) => match app.data.list(list_id) {
            Some(list) => AppModel {
                editor: Some(
                    EditorModel {
                        target: EditTarget::List(list_id, field),
                        input: line_of(list_field_text(list, field)),
                        suggestion_index: 0,
                    },
                ),
                ..app
            },
            None => app,
        },
        None => app,
    }
}

/// What a key does in an open list.
pub open spec fn open_list_key(app: AppModel, list_id: u64, key: KeyPress, today: int) -> Step {
    match key.code {
        KeyCode::Esc => idle(
            AppModel { expanded_list_id: None, selected_list_task_idx: 0, ..app },
        ),
        KeyCode::Down => idle(
            if key.shift {
                rows_selected(app, 1)
            } else {
                row_moved(app, 1)
            },
        ),
        KeyCode::Up => idle(
            if key.shift {
                rows_selected(app, -1)
            } else {
                row_moved(app, -1)
            },
        ),
        KeyCode::Enter => idle(row_opened(app)),
        KeyCode::Delete => idle(row_delete_asked(app)),
        KeyCode::Char(c) => if c == 'x' {
            idle(sort_toggled(app))
        } else if c == 'c' {
            idle(order_toggled(app))
        } else if c == 'J' {
            idle(rows_selected(app, 1))
        } else if c == 'K' {
            idle(rows_selected(app, -1))
        } else if c == 'j' {
            idle(row_moved(app, 1))
        } else if c == 'k' {
            idle(row_moved(app, -1))
        } else if c == 'a' {
            row_toggled(app, today)
        } else if c == 'd' {
            idle(row_delete_asked(app))
        } else if c == 'n' {
            task_created(app, list_id, today, true)
        } else if c == 't' {
            idle(list_edit_started(app, ListField::Name))
        } else if c == 'p' {
            idle(list_edit_started(app, ListField::Priority))
        } else if c == 'q' {
            idle(list_edit_started(app, ListField::Color))
        } else {
            idle(app)
        },
        _ => idle(app),
    }
}

/// The text that the line begins with when a field of a task is edited.
pub open spec fn task_field_text(
    app: AppModel,
    key: TaskKey,
    task: crate::task::TaskModel,
    field: TaskField,
) -> Seq<char> {
    match field {
        TaskField::Title => task.title,
        TaskField::Estimated => decimal(task.estimated_minutes as nat),
        TaskField::Actual => decimal(task.actual_minutes as nat),
        TaskField::DueDate => crate::date::day_text(task.due_date),
        TaskField::ListName => match app.data.list(key.list_id) {
            Some(list) => list.name,
            None => Seq::empty(),
        },
    }
}

/// With a field of the open task being edited.
#[verifier::opaque]
pub open spec fn task_edit_started(app: AppModel, key: TaskKey, field: TaskField) -> AppModel {
    match app.data.task(key) {
        Some(task) => AppModel {
            editor: Some(
                EditorModel {
                    target: EditTarget::Task(key, field),
                    input: line_of(task_field_text(app, key, task, field)),
                    suggestion_index: 0,
                },
            ),
            ..app
        },
        None => app,
    }
}

/// With the open task completed, or no longer completed.
#[verifier::opaque]
pub open spec fn task_toggled(app: AppModel, key: TaskKey, today: int) -> Step {
    edited(app, settled(app.data.edited_task(key, toggle(today)), today))
}

/// With the question whether to delete the open task.
#[verifier::opaque]
pub open spec fn task_delete_asked(app: AppModel, key: TaskKey) -> AppModel {
    AppModel {
        confirm: Some(
            ConfirmModel {
                message: delete_question(
                    match app.data.task(key) {
                        Some(task) => shown_text(task.title),
                        None => "this "@ + "task"@,
                    },
                ),
                action: ActionModel::DeleteTask(key),
            },
        ),
        ..app
    }
}

/// What a key does in an open task.
pub open spec fn open_task_key(app: AppModel, key: TaskKey, press: KeyPress, today: int) -> Step {
    match press.code {
        KeyCode::Esc => idle(AppModel { expanded_task_key: None, ..app }),
        KeyCode::Delete => idle(task_delete_asked(app, key)),
        KeyCode::Char(c) => if c == 'a' {
            task_toggled(app, key, today)
        } else if c == 't' {
            idle(task_edit_started(app, key, TaskField::Title))
        } else if c == 'd' {
            description_opened(app, key)
        } else if c == 'e' {
            idle(task_edit_started(app, key, TaskField::Estimated))
        } else if c == 'w' {
            idle(task_edit_started(app, key, TaskField::Actual))
        } else if c == 'r' {
            idle(task_edit_started(app, key, TaskField::DueDate))
        } else if c == 'l' {
            idle(task_edit_started(app, key, TaskField::ListName))
        } else {
            idle(app)
        },
        _ => idle(app),
    }
}

fn has_key(keys: &Vec<TaskKey>, key: TaskKey) -> (res: bool)
    ensures
        res == keys@.contains(key),
{
    let mut i: usize = 0;
    while i < keys.len()
        invariant
            i <= keys@.len(),
            forall|k: int| 0 <= k < i ==> #[trigger] keys@[k] != key,
        decreases keys.len() - i,
    {
        if keys[i] == key {
            return true;
        }
        i += 1;
    }
    false
}

/// The keys of the rows `start..=end`, each once.
fn distinct_keys(items: &Vec<TaskViewItem>, start: usize, end: usize) -> (res: Vec<TaskKey>)
    requires
        start <= end < items@.len(),
    ensures
        res@ == distinct(item_keys(views(items@).subrange(start as int, end + 1))),
        all_differ(res@),
{
    let ghost keys = item_keys(views(items@).subrange(start as int, end + 1));
    let mut res: Vec<TaskKey> = Vec::new();
    let mut i: usize = start;
    assert(keys.take(0) == Seq::<TaskKey>::empty());
    while i <= end
        invariant
            start <= i <= end + 1,
            end < items.len(),
            keys == item_keys(views(items@).subrange(start as int, end + 1)),
            res@ == distinct(keys.take(i - start)),
        decreases end + 1 - i,
    {
        let key = items[i].key;
        proof {
            assert(keys.take(i - start + 1).drop_last() == keys.take(i - start));
            assert(keys[i - start] == key) by {
                assert(views(items@)[i as int] == items@[i as int]@);
            }
        }
        if !has_key(&res, key) {
            res.push(key);
        }
        i += 1;
    }
    proof {
        assert(keys.take(i - start) == keys);
        distinct_is_distinct(keys);
        reveal(all_differ);
    }
    res
}

fn keys_between(items: &Vec<TaskViewItem>, a: usize, b: usize) -> (res: Vec<TaskKey>)
    requires
        a < items@.len(),
        b < items@.len(),
    ensures
        res@ == range_keys(views(items@), a, b),
        all_differ(res@),
{
    if a < b {
        distinct_keys(items, a, b)
    } else {
        distinct_keys(items, b, a)
    }
}

fn lines_for_notes() -> (res: Vec<&'static str>)
    ensures
        views(res@) == notes_help(),
{
    let mut res: Vec<&'static str> = Vec::new();
    res.push("# Notes editor");
    res.push("#");
    res.push("# Edit freely, then save and quit with :wq");
    res.push("# Quit without saving with :q!");
    res.push("# Lines in this help block are ignored when saved");
    assert(views(res@) == notes_help());
    res
}

fn lines_for_description() -> (res: Vec<&'static str>)
    ensures
        views(res@) == description_help(),
{
    let mut res: Vec<&'static str> = Vec::new();
    res.push("# Task description editor");
    res.push("#");
    res.push("# Write any task details you want to keep");
    res.push("# Save and quit with :wq");
    res.push("# Quit without saving with :q!");
    res.push("# Lines in this help block are ignored when saved");
    assert(views(res@) == description_help());
    res
}

impl App {
    fn move_row(&mut self, delta: isize)
        ensures
            final(self)@ == row_moved(old(self)@, delta as int),
    {
        proof {
            reveal(row_moved);
        }
        let items = self.current_task_items();
        let ghost rows = views(items@);
        assert(rows.len() == items@.len());
        let next: usize = shift_index(self.current_task_selection_index(), items.len(), delta);
        self.clear_multi_selection();
        self.set_current_task_selection_index(next);
    }

    fn extend_task_selection(&mut self, delta: isize)
        requires
            old(self)@.current_items().len() > 0 ==> anchor_of(old(self)@) < old(
                self,
            )@.current_items().len(),
        ensures
            final(self)@ == rows_selected(old(self)@, delta as int),
    {
        proof {
            reveal(rows_selected);
        }
        let items = self.current_task_items();
        assert(views(items@).len() == items@.len());
        if items.len() == 0 {
            self.clear_multi_selection();
            return ;
        }
        let current: usize = clamp_index(self.current_task_selection_index(), items.len());
        let next: usize = shift_index(current, items.len(), delta);
        let anchor: usize = match self.task_selection_anchor {
            Some(index) => index,
            None => current,
        };
        let keys = keys_between(&items, anchor, next);
        self.set_current_task_selection_index(next);
        self.task_selection_anchor = Some(anchor);
        self.multi_selected_tasks = keys;
    }

    fn open_multi_task_edit(&mut self)
        ensures
            final(self)@ == multi_edit_opened(old(self)@),
    {
        proof {
            reveal(multi_edit_opened);
        }
        let items = self.current_task_items();
        let ghost all = views(items@);
        let ghost wanted = is_selected(self.multi_selected_tasks@);
        let mut keys: Vec<TaskKey> = Vec::new();
        let mut i: usize = 0;
        assert(all.take(0).filter(wanted) == Seq::<TaskItemModel>::empty()) by {
            reveal(Seq::filter);
        }
        while i < items.len()
            invariant
                i <= items@.len(),
                self == old(self),
                all == views(items@),
                wanted == is_selected(self.multi_selected_tasks@),
                keys@ == item_keys(all.take(i as int).filter(wanted)),
            decreases items.len() - i,
        {
            let key = items[i].key;
            proof {
                assert(all[i as int] == items@[i as int]@);
                filter_push(all.take(i as int), wanted, all[i as int]);
                assert(all.take(i as int).push(all[i as int]) == all.take(i + 1));
            }
            if has_key(&self.multi_selected_tasks, key) {
                let ghost kept = all.take(i as int).filter(wanted);
                assert(wanted(all[i as int]));
                assert(item_keys(kept.push(all[i as int])) == item_keys(kept).push(key));
                keys.push(key);
            } else {
                assert(!wanted(all[i as int]));
            }
            i += 1;
        }
        assert(all.take(i as int) == all);
        if keys.len() < 2 {
            return ;
        }
        self.multi_task_edit = Some(
            MultiTaskEditState {
                keys,
                mode: MultiTaskEditMode::Menu,
                input: LineInput::new(),
                suggestion_index: 0,
            },
        );
    }

    fn open_row(&mut self)
        ensures
            final(self)@ == row_opened(old(self)@),
    {
        proof {
            reveal(row_opened);
        }
        if self.multi_selected_tasks.len() > 1 {
            self.open_multi_task_edit();
            return ;
        }
        let items = self.current_task_items();
        assert(views(items@).len() == items@.len());
        let index: usize = self.current_task_selection_index();
        if index < items.len() {
            let key = items[index].key;
            assert(views(items@)[index as int] == items@[index as int]@);
            self.clear_multi_selection();
            self.expanded_task_key = Some(key);
        }
    }

    fn toggle_row(&mut self, today: Date) -> (effect: Effect)
        ensures
            (Step { app: final(self)@, effect: effect@ }) == row_toggled(old(self)@, today@),
    {
        proof {
            reveal(row_toggled);
        }
        let items = self.current_task_items();
        assert(views(items@).len() == items@.len());
        let index: usize = self.current_task_selection_index();
        if index < items.len() {
            let key = items[index].key;
            assert(views(items@)[index as int] == items@[index as int]@);
            let changed = self.data.toggle_task_completed(key, today);
            self.clear_multi_selection();
            if self.expanded_list_id.is_some() {
                self.normalize_list_task_selection();
            } else {
                self.normalize_main_selection();
            }
            if changed {
                Effect::Save(AfterSave::Report)
            } else {
                Effect::Idle
            }
        } else {
            Effect::Idle
        }
    }

    fn ask_row_delete(&mut self)
        ensures
            final(self)@ == row_delete_asked(old(self)@),
    {
        proof {
            reveal(row_delete_asked);
        }
        let items = self.current_task_items();
        assert(views(items@).len() == items@.len());
        let index: usize = self.current_task_selection_index();
        if index < items.len() {
            let title = empty_if_blank(items[index].title.as_str());
            assert(views(items@)[index as int] == items@[index as int]@);
            self.clear_multi_selection();
            self.confirm = Some(
                ConfirmState {
                    message: "Delete task '".to_string().concat(title.as_str()).concat("'?"),
                    action: ConfirmAction::DeleteTask(items[index].key),
                },
            );
        }
    }

    fn toggle_sort(&mut self)
        ensures
            final(self)@ == sort_toggled(old(self)@),
    {
        proof {
            reveal(sort_toggled);
        }
        self.main_sort_mode = toggle_task_sort_mode(self.main_sort_mode);
        self.set_current_task_selection_index(0);
        self.clear_multi_selection();
    }

    fn toggle_order(&mut self)
        ensures
            final(self)@ == order_toggled(old(self)@),
    {
        proof {
            reveal(order_toggled);
        }
        if self.main_sort_mode == TaskSortMode::TimeLeft {
            self.time_left_reversed = !self.time_left_reversed;
        } else {
            self.show_completed_in_due_mode = !self.show_completed_in_due_mode;
        }
        self.set_current_task_selection_index(0);
        self.clear_multi_selection();
    }

    fn open_notes_editor(&self) -> (effect: Effect)
        ensures
            (Step { app: self@, effect: effect@ }) == notes_opened(self@),
    {
        proof {
            reveal(notes_opened);
        }
        Effect::EditText(
            TextPurpose::Notes,
            add_help(&lines_for_notes(), self.notes_text.as_str()),
        )
    }

    fn open_task_description_editor(&self, key: TaskKey) -> (effect: Effect)
        ensures
            (Step { app: self@, effect: effect@ }) == description_opened(self@, key),
    {
        proof {
            reveal(description_opened);
        }
        match self.data.get_task(key) {
            Some(task) => Effect::EditText(
                TextPurpose::Description(key),
                add_help(&lines_for_description(), task.description.as_str()),
            ),
            None => Effect::Idle,
        }
    }

    fn create_task(&mut self, list_id: u64, today: Date, in_list: bool) -> (effect: Effect)
        requires
            old(self)@.data.list_index(list_id) is Some ==> old(self).data.has_task_number(),
        ensures
            (Step { app: final(self)@, effect: effect@ }) == task_created(
                old(self)@,
                list_id,
                today@,
                in_list,
            ),
    {
        proof {
            reveal(task_created);
        }
        match self.data.create_task_in_list(list_id, today) {
            Some(key) => if in_list {
                Effect::Save(AfterSave::OpenListTask(key))
            } else {
                Effect::Save(AfterSave::OpenMainTask(key))
            },
            None => Effect::Idle,
        }
    }

    fn create_task_from_main(&mut self, today: Date) -> (effect: Effect)
        requires
            old(self)@.data.lists.len() > 0 ==> old(self).data.has_task_number(),
        ensures
            (Step { app: final(self)@, effect: effect@ }) == main_task_created(
                old(self)@,
                today@,
            ),
    {
        proof {
            reveal(main_task_created);
        }
        let ranked = self.data.task_list_items(ListSortMode::Priority);
        let ghost rows = views(ranked@);
        assert(rows.len() == ranked@.len());
        if ranked.len() == 0 {
            self.push_popup("no task list available for new task".to_string());
            return Effect::Idle;
        }
        assert(rows[0] == ranked@[0]@);
        proof {
            if self@.data.lists.len() == 0 {
                assert(crate::items::list_item_rows(self@.data.lists).len() == 0);
            }
        }
        self.create_task(ranked[0].list_id, today, false)
    }

    pub(crate) fn handle_search_key(&mut self, key: KeyPress)
        requires
            old(self)@.wf(),
        ensures
            final(self)@ == search_key(old(self)@, key),
    {
        match key.code {
            KeyCode::Esc => {
                self.search_active = false;
                self.search = LineInput::new();
                self.selected_main_idx = 0;
            },
            KeyCode::Enter => {
                self.search_active = false;
            },
            KeyCode::Backspace | KeyCode::Delete | KeyCode::End => {
                self.search.edit(key.code);
                self.selected_main_idx = 0;
            },
            KeyCode::Char(c) => {
                if !key.control {
                    self.search.insert(c);
                    self.selected_main_idx = 0;
                }
            },
            _ => {
                self.search.edit(key.code);
            },
        }
    }

    pub(crate) fn handle_task_list_search_key(&mut self, key: KeyPress)
        requires
            old(self)@.wf(),
        ensures
            final(self)@ == list_search_key(old(self)@, key),
    {
        match key.code {
            KeyCode::Esc => {
                self.list_search_active = false;
                self.list_search = LineInput::new();
                self.selected_list_idx = 0;
            },
            KeyCode::Enter => {
                self.list_search_active = false;
            },
            KeyCode::Backspace | KeyCode::Delete => {
                self.list_search.edit(key.code);
                self.selected_list_idx = 0;
            },
            KeyCode::Char(c) => {
                if !key.control {
                    self.list_search.insert(c);
                    self.selected_list_idx = 0;
                }
            },
            _ => {
                self.list_search.edit(key.code);
            },
        }
    }
}

/// How far a key extends the selection of rows, if it does.
pub open spec fn extension(key: KeyPress) -> Option<int> {
    match key.code {
        KeyCode::Down => if key.shift {
            Some(1)
        } else {
            None
        },
        KeyCode::Up => if key.shift {
            Some(-1)
        } else {
            None
        },
        KeyCode::Char(c) => if c == 'J' {
            Some(1)
        } else if c == 'K' {
            Some(-1)
        } else {
            None
        },
        _ => None,
    }
}

/// Where a selection of several rows begins is among the rows.
pub open spec fn can_extend(app: AppModel) -> bool {
    app.current_items().len() > 0 ==> anchor_of(app) < app.current_items().len()
}

/// There is a number left for a task that is created among the rows in front.
pub open spec fn can_create_task(app: AppModel) -> bool {
    (match app.expanded_list_id {
        Some(list_id) => app.data.list_index(list_id) is Some,
        None => app.data.lists.len() > 0,
    }) ==> app.data.next_task_id < u64::MAX
}

/// What a key asks for among rows of tasks can be done.
pub open spec fn rows_accept(app: AppModel, key: KeyPress) -> bool {
    &&& extension(key) is Some ==> can_extend(app)
    &&& key.code == KeyCode::Char('n') ==> can_create_task(app)
}

impl App {
    /// Tells whether what a key asks for among rows of tasks can be done.
    pub(crate) fn do_rows_accept(&self, key: KeyPress) -> (res: bool)
        ensures
            res == rows_accept(self@, key),
    {
        let extends = match key.code {
            KeyCode::Down => key.shift,
            KeyCode::Up => key.shift,
            KeyCode::Char(c) => c == 'J' || c == 'K',
            _ => false,
        };
        if extends {
            let items = self.current_task_items();
            assert(views(items@).len() == items@.len());
            return match self.task_selection_anchor {
                Some(anchor) => items.len() == 0 || anchor < items.len(),
                None => true,
            };
        }
        if let KeyCode::Char(c) = key.code {
            if c == 'n' {
                let there = match self.expanded_list_id {
                    Some(list_id) => self.data.get_list(list_id).is_some(),
                    None => self.data.lists.len() > 0,
                };
                return !there || self.data.can_create_task();
            }
        }
        true
    }

    fn stop(&mut self)
        ensures
            final(self)@ == quit(old(self)@),
    {
        proof {
            reveal(quit);
        }
        self.running = false;
    }

    fn show_page(&mut self, page: Page)
        ensures
            final(self)@ == page_shown(old(self)@, page),
    {
        proof {
            reveal(page_shown);
        }
        self.clear_multi_selection();
        self.page = page;
    }

    fn clear_search(&mut self)
        ensures
            final(self)@ == search_cleared(old(self)@),
    {
        proof {
            reveal(search_cleared);
        }
        self.search = LineInput::new();
        self.selected_main_idx = 0;
        self.clear_multi_selection();
    }

    fn toggle_list_sort(&mut self)
        ensures
            final(self)@ == list_sort_toggled(old(self)@),
    {
        proof {
            reveal(list_sort_toggled);
        }
        self.list_sort_mode = toggle_list_sort_mode(self.list_sort_mode);
        self.selected_list_idx = 0;
    }

    fn toggle_list_order(&mut self)
        ensures
            final(self)@ == list_order_toggled(old(self)@),
    {
        proof {
            reveal(list_order_toggled);
        }
        self.list_sort_reversed = !self.list_sort_reversed;
        self.selected_list_idx = 0;
    }

    fn start_search(&mut self)
        requires
            old(self)@.wf(),
        ensures
            final(self)@ == search_started(old(self)@),
    {
        proof {
            reveal(search_started);
        }
        self.search_active = true;
        self.search.move_end();
    }

    fn start_list_search(&mut self)
        requires
            old(self)@.wf(),
        ensures
            final(self)@ == list_search_started(old(self)@),
    {
        proof {
            reveal(list_search_started);
        }
        self.list_search_active = true;
        self.list_search.move_end();
    }

    pub(crate) fn handle_main_key(&mut self, key: KeyPress, today: Date) -> (effect: Effect)
        requires
            old(self)@.wf(),
            old(self)@.expanded_list_id is None,
            rows_accept(old(self)@, key),
        ensures
            (Step { app: final(self)@, effect: effect@ }) == main_key(old(self)@, key, today@),
    {
        match key.code {
            KeyCode::Esc => {
                self.clear_search();
            },
            KeyCode::Down => {
                if key.shift {
                    self.extend_task_selection(1);
                } else {
                    self.move_row(1);
                }
            },
            KeyCode::Up => {
                if key.shift {
                    self.extend_task_selection(-1);
                } else {
                    self.move_row(-1);
                }
            },
            KeyCode::Enter => {
                self.open_row();
            },
            KeyCode::Delete | KeyCode::Backspace => {
                self.ask_row_delete();
            },
            KeyCode::Char(c) => {
                if c == 'q' {
                    self.stop();
                } else if c == '/' {
                    self.start_search();
                } else if c == 'u' {
                    self.show_page(Page::TaskLists);
                } else if c == 'n' {
                    return self.create_task_from_main(today);
                } else if c == 'o' {
                    return self.open_notes_editor();
                } else if c == 'x' {
                    self.toggle_sort();
                } else if c == 'c' {
                    self.toggle_order();
                } else if c == 'J' {
                    self.extend_task_selection(1);
                } else if c == 'K' {
                    self.extend_task_selection(-1);
                } else if c == 'j' {
                    self.move_row(1);
                } else if c == 'k' {
                    self.move_row(-1);
                } else if c == 'a' {
                    return self.toggle_row(today);
                } else if c == 'd' {
                    self.ask_row_delete();
                }
            },
            _ => {},
        }
        Effect::Idle
    }

    fn move_list_selection(&mut self, delta: isize)
        ensures
            final(self)@ == list_moved(old(self)@, delta as int),
    {
        proof {
            reveal(list_moved);
        }
        let items = self.filtered_task_list_items();
        assert(views(items@).len() == items@.len());
        self.clear_multi_selection();
        self.selected_list_idx = shift_index(self.selected_list_idx, items.len(), delta);
    }

    fn open_selected_list(&mut self)
        ensures
            final(self)@ == selected_list_opened(old(self)@),
    {
        proof {
            reveal(selected_list_opened);
        }
        let items = self.filtered_task_list_items();
        assert(views(items@).len() == items@.len());
        if self.selected_list_idx < items.len() {
            let list_id: u64 = items[self.selected_list_idx].list_id;
            assert(views(items@)[self.selected_list_idx as int]
                == items@[self.selected_list_idx as int]@);
            self.clear_multi_selection();
            self.expanded_list_id = Some(list_id);
            self.selected_list_task_idx = 0;
        }
    }

    fn ask_list_delete(&mut self)
        ensures
            final(self)@ == list_delete_asked(old(self)@),
    {
        proof {
            reveal(list_delete_asked);
        }
        let items = self.filtered_task_list_items();
        assert(views(items@).len() == items@.len());
        if self.selected_list_idx < items.len() {
            let item = &items[self.selected_list_idx];
            assert(views(items@)[self.selected_list_idx as int] == item@);
            self.confirm = Some(
                ConfirmState {
                    message: "Delete task list '".to_string().concat(item.name.as_str()).concat(
                        "' and all its tasks?",
                    ),
                    action: ConfirmAction::DeleteList(item.list_id),
                },
            );
        }
    }

    fn create_list(&mut self, today: Date) -> (effect: Effect)
        requires
            old(self).data.has_list_number(),
        ensures
            (Step { app: final(self)@, effect: effect@ }) == list_created(old(self)@, today@),
    {
        proof {
            reveal(list_created);
        }
        let list_id: u64 = self.data.create_task_list(today);
        Effect::Save(AfterSave::OpenList(list_id))
    }

    pub(crate) fn handle_task_list_page_key(&mut self, key: KeyPress, today: Date) -> (effect:
        Effect)
        requires
            old(self)@.wf(),
            key.code == KeyCode::Char('n') ==> old(self)@.data.next_list_id < u64::MAX,
        ensures
            (Step { app: final(self)@, effect: effect@ }) == list_page_key(
                old(self)@,
                key,
                today@,
            ),
    {
        match key.code {
            KeyCode::Down => {
                self.move_list_selection(1);
            },
            KeyCode::Up => {
                self.move_list_selection(-1);
            },
            KeyCode::Enter => {
                self.open_selected_list();
            },
            KeyCode::Delete | KeyCode::Backspace => {
                self.ask_list_delete();
            },
            KeyCode::Char(c) => {
                if c == 'q' {
                    self.stop();
                } else if c == 'u' {
                    self.show_page(Page::Main);
                } else if c == '/' {
                    self.start_list_search();
                } else if c == 'o' {
                    return self.open_notes_editor();
                } else if c == 'x' {
                    self.toggle_list_sort();
                } else if c == 'c' {
                    self.toggle_list_order();
                } else if c == 'j' {
                    self.move_list_selection(1);
                } else if c == 'k' {
                    self.move_list_selection(-1);
                } else if c == 'n' {
                    return self.create_list(today);
                } else if c == 'd' {
                    self.ask_list_delete();
                }
            },
            _ => {},
        }
        Effect::Idle
    }

    fn start_list_edit(&mut self, field: ListField)
        ensures
            final(self)@ == list_edit_started(old(self)@, field),
    {
        proof {
            reveal(list_edit_started);
        }
        if let Some(list_id) = self.expanded_list_id {
            let input = match self.data.get_list(list_id) {
                Some(list) => match field {
                    ListField::Name => LineInput::from_text(list.name.as_str()),
                    ListField::Priority => LineInput::from_text(
                        to_decimal(list.priority as u64).as_str(),
                    ),
                    ListField::Color => LineInput::from_text(list.color_hex.as_str()),
                },
                None => {
                    return ;
                },
            };
            self.editor = Some(
                EditorState {
                    target: EditTarget::List(list_id, field),
                    input,
                    suggestion_index: 0,
                },
            );
        }
    }

    pub(crate) fn handle_list_expanded_key(
        &mut self,
        list_id: u64,
        key: KeyPress,
        today: Date,
    ) -> (effect: Effect)
        requires
            old(self)@.wf(),
            old(self)@.expanded_list_id == Some(list_id),
            rows_accept(old(self)@, key),
        ensures
            (Step { app: final(self)@, effect: effect@ }) == open_list_key(
                old(self)@,
                list_id,
                key,
                today@,
            ),
    {
        match key.code {
            KeyCode::Esc => {
                self.expanded_list_id = None;
                self.selected_list_task_idx = 0;
            },
            KeyCode::Down => {
                if key.shift {
                    self.extend_task_selection(1);
                } else {
                    self.move_row(1);
                }
            },
            KeyCode::Up => {
                if key.shift {
                    self.extend_task_selection(-1);
                } else {
                    self.move_row(-1);
                }
            },
            KeyCode::Enter => {
                self.open_row();
            },
            KeyCode::Delete => {
                self.ask_row_delete();
            },
            KeyCode::Char(c) => {
                if c == 'x' {
                    self.toggle_sort();
                } else if c == 'c' {
                    self.toggle_order();
                } else if c == 'J' {
                    self.extend_task_selection(1);
                } else if c == 'K' {
                    self.extend_task_selection(-1);
                } else if c == 'j' {
                    self.move_row(1);
                } else if c == 'k' {
                    self.move_row(-1);
                } else if c == 'a' {
                    return self.toggle_row(today);
                } else if c == 'd' {
                    self.ask_row_delete();
                } else if c == 'n' {
                    return self.create_task(list_id, today, true);
                } else if c == 't' {
                    self.start_list_edit(ListField::Name);
                } else if c == 'p' {
                    self.start_list_edit(ListField::Priority);
                } else if c == 'q' {
                    self.start_list_edit(ListField::Color);
                }
            },
            _ => {},
        }
        Effect::Idle
    }

    fn start_task_edit(&mut self, key: TaskKey, field: TaskField)
        ensures
            final(self)@ == task_edit_started(old(self)@, key, field),
    {
        proof {
            reveal(task_edit_started);
        }
        let input = match self.data.get_task(key) {
            Some(task) => match field {
                TaskField::Title => LineInput::from_text(task.title.as_str()),
                TaskField::Estimated => LineInput::from_text(
                    to_decimal(task.estimated_minutes as u64).as_str(),
                ),
                TaskField::Actual => LineInput::from_text(
                    to_decimal(task.actual_minutes as u64).as_str(),
                ),
                TaskField::DueDate => LineInput::from_text(task.due_date.to_text().as_str()),
                TaskField::ListName => match self.data.get_list(key.list_id) {
                    Some(list) => LineInput::from_text(list.name.as_str()),
                    None => LineInput::new(),
                },
            },
            None => {
                return ;
            },
        };
        self.editor = Some(
            EditorState { target: EditTarget::Task(key, field), input, suggestion_index: 0 },
        );
    }

    fn toggle_task(&mut self, key: TaskKey, today: Date) -> (effect: Effect)
        ensures
            (Step { app: final(self)@, effect: effect@ }) == task_toggled(
                old(self)@,
                key,
                today@,
            ),
    {
        proof {
            reveal(task_toggled);
        }
        if self.data.toggle_task_completed(key, today) {
            Effect::Save(AfterSave::Report)
        } else {
            Effect::Idle
        }
    }

    fn ask_task_delete(&mut self, key: TaskKey)
        ensures
            final(self)@ == task_delete_asked(old(self)@, key),
    {
        proof {
            reveal(task_delete_asked);
        }
        let title = match self.data.get_task(key) {
            Some(task) => empty_if_blank(task.title.as_str()),
            None => "this ".to_string().concat("task"),
        };
        self.confirm = Some(
            ConfirmState {
                message: "Delete task '".to_string().concat(title.as_str()).concat("'?"),
                action: ConfirmAction::DeleteTask(key),
            },
        );
    }

    pub(crate) fn handle_task_expanded_key(
        &mut self,
        key: TaskKey,
        press: KeyPress,
        today: Date,
    ) -> (effect: Effect)
        requires
            old(self)@.wf(),
        ensures
            (Step { app: final(self)@, effect: effect@ }) == open_task_key(
                old(self)@,
                key,
                press,
                today@,
            ),
    {
        match press.code {
            KeyCode::Esc => {
                self.expanded_task_key = None;
            },
            KeyCode::Delete => {
                self.ask_task_delete(key);
            },
            KeyCode::Char(c) => {
                if c == 'a' {
                    return self.toggle_task(key, today);
                } else if c == 't' {
                    self.start_task_edit(key, TaskField::Title);
                } else if c == 'd' {
                    return self.open_task_description_editor(key);
                } else if c == 'e' {
                    self.start_task_edit(key, TaskField::Estimated);
                } else if c == 'w' {
                    self.start_task_edit(key, TaskField::Actual);
                } else if c == 'r' {
                    self.start_task_edit(key, TaskField::DueDate);
                } else if c == 'l' {
                    self.start_task_edit(key, TaskField::ListName);
                }
            },
            _ => {},
        }
        Effect::Idle
    }
}

} // verus!
