//! That no key and nothing that comes back from outside breaks what holds of the state: every
//! cursor stands in its line, and no key is selected twice.

use vstd::prelude::*;

use crate::editing::{
    confirm_key, editor_key, field_taken, list_chosen, list_deleted, multi_date_taken,
    multi_delete_asked, multi_key, multi_list_taken, task_deleted, tasks_deleted,
};
use crate::effects::{notes_written, saved, text_edited, AfterSave, TextPurpose};
use crate::input::KeyPress;
use crate::keys::{
    description_opened, distinct_is_distinct, item_keys, list_created, list_delete_asked,
    list_edit_started, list_moved, list_order_toggled, list_page_key, list_search_started,
    list_sort_toggled, main_key, main_task_created, multi_edit_opened, notes_opened, open_list_key,
    open_task_key, order_toggled, page_shown, quit, range_keys, row_delete_asked, row_moved,
    row_opened, row_toggled, rows_selected, search_cleared, search_started, selected_list_opened,
    sort_toggled, task_created, task_delete_asked, task_edit_started, task_toggled,
};
use crate::program::pressed;
use crate::state::{all_differ, AppModel, ConfirmModel, EditorModel, MultiModel};
use crate::task::{TaskItemModel, TaskKey};

verus! {

proof fn unselected_is_sound(app: AppModel)
    requires
        app.wf(),
    ensures
        app.unselected().wf(),
{
    reveal(all_differ);
}

proof fn range_keys_differ(items: Seq<TaskItemModel>, a: usize, b: usize)
    ensures
        all_differ(range_keys(items, a, b)),
{
    reveal(all_differ);
    if a < b {
        distinct_is_distinct(item_keys(items.subrange(a as int, b + 1)));
    } else {
        distinct_is_distinct(item_keys(items.subrange(b as int, a + 1)));
    }
}

proof fn row_keys_are_sound(app: AppModel, delta: int, today: int)
    requires
        app.wf(),
    ensures
        row_moved(app, delta).wf(),
        rows_selected(app, delta).wf(),
        row_opened(app).wf(),
        row_toggled(app, today).app.wf(),
        row_delete_asked(app).wf(),
        sort_toggled(app).wf(),
        order_toggled(app).wf(),
{
    reveal(row_moved);
    reveal(rows_selected);
    reveal(row_opened);
    reveal(multi_edit_opened);
    reveal(row_toggled);
    reveal(row_delete_asked);
    reveal(sort_toggled);
    reveal(order_toggled);
    unselected_is_sound(app);
    reveal(all_differ);
    let items = app.current_items();
    let next = crate::state::shifted(
        crate::state::clamped(app.current_index(), items.len()),
        items.len(),
        delta,
    );
    range_keys_differ(items, crate::keys::anchor_of(app), next);
}

proof fn main_keys_are_sound(app: AppModel, key: KeyPress, today: int)
    requires
        app.wf(),
    ensures
        main_key(app, key, today).app.wf(),
{
    row_keys_are_sound(app, 1, today);
    row_keys_are_sound(app, -1, today);
    unselected_is_sound(app);
    reveal(all_differ);
    reveal(quit);
    reveal(page_shown);
    reveal(search_started);
    reveal(search_cleared);
    reveal(main_task_created);
    reveal(task_created);
    reveal(notes_opened);
}

proof fn list_page_keys_are_sound(app: AppModel, key: KeyPress, today: int)
    requires
        app.wf(),
    ensures
        list_page_key(app, key, today).app.wf(),
{
    unselected_is_sound(app);
    reveal(quit);
    reveal(page_shown);
    reveal(list_search_started);
    reveal(list_sort_toggled);
    reveal(list_order_toggled);
    reveal(list_moved);
    reveal(selected_list_opened);
    reveal(list_delete_asked);
    reveal(list_created);
    reveal(notes_opened);
}

proof fn open_list_keys_are_sound(app: AppModel, list_id: u64, key: KeyPress, today: int)
    requires
        app.wf(),
    ensures
        open_list_key(app, list_id, key, today).app.wf(),
{
    row_keys_are_sound(app, 1, today);
    row_keys_are_sound(app, -1, today);
    reveal(task_created);
    reveal(list_edit_started);
}

proof fn open_task_keys_are_sound(app: AppModel, task_key: TaskKey, key: KeyPress, today: int)
    requires
        app.wf(),
    ensures
        open_task_key(app, task_key, key, today).app.wf(),
{
    reveal(task_toggled);
    reveal(description_opened);
    reveal(task_edit_started);
    reveal(task_delete_asked);
}

proof fn editor_keys_are_sound(app: AppModel, editor: EditorModel, key: KeyPress, today: int)
    requires
        app.wf(),
        editor.input.wf(),
    ensures
        editor_key(app, editor, key, today).app.wf(),
{
    reveal(field_taken);
    reveal(list_chosen);
}

proof fn confirm_keys_are_sound(app: AppModel, question: ConfirmModel, key: KeyPress, today: int)
    requires
        app.wf(),
    ensures
        confirm_key(app, question, key, today).app.wf(),
{
    reveal(task_deleted);
    reveal(tasks_deleted);
    reveal(list_deleted);
    reveal(all_differ);
}

proof fn multi_keys_are_sound(app: AppModel, state: MultiModel, key: KeyPress, today: int)
    requires
        app.wf(),
        state.input.wf(),
    ensures
        multi_key(app, state, key, today).app.wf(),
{
    reveal(multi_date_taken);
    reveal(multi_list_taken);
    reveal(multi_delete_asked);
    reveal(all_differ);
}

/// Whatever key is pressed, every cursor stays in its line, and no key is selected twice.
pub proof fn keys_keep_the_state_sound(app: AppModel, key: KeyPress, today: int)
    requires
        app.wf(),
    ensures
        pressed(app, key, today).app.wf(),
{
    if let Some(state) = app.multi_task_edit {
        multi_keys_are_sound(app, state, key, today);
    } else if let Some(question) = app.confirm {
        confirm_keys_are_sound(app, question, key, today);
    } else if app.show_popup {
    } else if let Some(editor) = app.editor {
        editor_keys_are_sound(app, editor, key, today);
    } else if let Some(task_key) = app.expanded_task_key {
        open_task_keys_are_sound(app, task_key, key, today);
    } else if let Some(list_id) = app.expanded_list_id {
        open_list_keys_are_sound(app, list_id, key, today);
    } else {
        main_keys_are_sound(app, key, today);
        list_page_keys_are_sound(app, key, today);
    }
}

/// So it is when the data or the notes are saved, or a text comes back from the text editor.
pub proof fn replies_keep_the_state_sound(
    app: AppModel,
    after: AfterSave,
    purpose: TextPurpose,
    content: Result<Seq<char>, Seq<char>>,
    text: Seq<char>,
    error: Option<Seq<char>>,
    today: int,
)
    requires
        app.wf(),
    ensures
        saved(app, after, error).wf(),
        text_edited(app, purpose, content, today).app.wf(),
        notes_written(app, text, error).wf(),
{
    unselected_is_sound(app);
}

} // verus!
