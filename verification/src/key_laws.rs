//! What holds whatever key is pressed.

use vstd::prelude::*;

use crate::data::{
    delete_step, due_date_step, move_step, set_actual, set_color, set_description, set_due_date,
    set_estimated, set_name, set_priority, set_title, settled, toggle, DataModel,
};
use crate::data_laws::{
    creating_keeps_numbers, deleting_keeps_numbers, editing_a_list_keeps_numbers,
    editing_a_task_keeps_numbers, editing_several_tasks_keeps_numbers, edits_keep_lists_sound,
    has_nothing_overdue, has_sound_lists, is_numbered, keeps_number, moving_keeps_numbers,
    pruning_keeps_numbers, pruning_leaves_nothing_overdue,
};
use crate::date::{day_number, day_text, day_text_reads_back, is_calendar_day, parsed_day};
use crate::editing::{
    confirm_key, editor_key, field_key, field_taken, is_typed, list_chosen, list_deleted,
    list_field_set, multi_date_taken, multi_delete_asked, multi_key, multi_list_taken, task_deleted,
    task_field_set, tasks_deleted,
};
use crate::effects::{text_edited, Step, TextPurpose};
use crate::input::{KeyCode, KeyPress};
use crate::keys::{
    description_opened, list_created, list_delete_asked, list_edit_started, list_field_text,
    list_moved, list_order_toggled, list_page_key, list_search_started, list_sort_toggled, main_key,
    main_task_created, multi_edit_opened, notes_opened, open_list_key, open_task_key, order_toggled,
    page_shown, quit, row_delete_asked, row_moved, row_opened, row_toggled, rows_accept,
    rows_selected, search_cleared, search_started, selected_list_opened, sort_toggled, task_created,
    task_delete_asked, task_edit_started, task_field_text, task_toggled,
};
use crate::program::{accepts, is_uncovered, pressed};
use crate::state::{
    ActionModel, AppModel, ConfirmModel, EditTarget, EditorModel, ListField, MultiModel, Page,
    TaskField,
};
use crate::task::{ListModel, TaskKey, TaskModel};
use crate::text::{decimal_reads_back, is_digit, parsed_number, trimmed};

verus! {

/// The data are in order: every list could be loaded, and the numbers are in order too where
/// `numbered` says so.
pub open spec fn is_sound(data: DataModel, numbered: bool) -> bool {
    has_sound_lists(data) && (numbered ==> is_numbered(data))
}

/// What a step may do to the data: leave them as they are, or change them so that they are still in
/// order and nothing is overdue, and then they are saved.
pub open spec fn is_sound_step(before: DataModel, step: Step, today: int, numbered: bool) -> bool {
    ||| step.app.data == before
    ||| step.effect is Save && is_sound(step.app.data, numbered) && has_nothing_overdue(
        step.app.data,
        today,
    )
}

/// An edit of the data that keeps them in order.
pub open spec fn keeps_sound(after: Option<DataModel>, today: int, numbered: bool) -> bool {
    after matches Some(data) ==> is_sound(data, numbered) && has_nothing_overdue(data, today)
}

/// The numbers of the data are in order, and where tasks are being moved, there are as many left.
pub open spec fn numbers_are_left(app: AppModel) -> bool {
    &&& is_numbered(app.data)
    &&& match app.multi_task_edit {
        Some(state) => app.data.next_task_id + state.keys.len() <= u64::MAX,
        None => app.editor is Some ==> app.data.next_task_id < u64::MAX,
    }
}

proof fn settling_is_sound(after: Option<DataModel>, today: int, numbered: bool)
    requires
        after matches Some(data) ==> is_sound(data, numbered),
    ensures
        keeps_sound(settled(after, today), today, numbered),
{
    if let Some(data) = after {
        if numbered {
            pruning_keeps_numbers(data, today);
        }
        pruning_leaves_nothing_overdue(data, today);
        edits_keep_lists_sound(
            data,
            TaskKey { list_id: 0, task_id: 0 },
            |task: TaskModel| task,
            0,
            Seq::empty(),
            Seq::empty(),
            0,
            today,
        );
    }
}

proof fn task_edits_are_sound(
    data: DataModel,
    key: TaskKey,
    edit: spec_fn(TaskModel) -> TaskModel,
    list_id: u64,
    today: int,
    numbered: bool,
)
    requires
        is_sound(data, numbered),
        keeps_number(edit),
    ensures
        keeps_sound(settled(data.edited_task(key, edit), today), today, numbered),
        keeps_sound(settled(data.without_task(key), today), today, numbered),
        keeps_sound(settled(data.without_list(list_id), today), today, numbered),
        keeps_sound(
            settled(data.with_task_moved(key, list_id), today),
            today,
            numbered && data.next_task_id < u64::MAX,
        ),
        data.next_task_id < u64::MAX ==> keeps_sound(
            settled(data.with_new_task(list_id, today), today),
            today,
            numbered,
        ),
        data.next_list_id < u64::MAX ==> keeps_sound(
            settled(Some(data.with_new_list()), today),
            today,
            numbered,
        ),
{
    edits_keep_lists_sound(data, key, edit, list_id, Seq::empty(), Seq::empty(), 0, today);
    let left = numbered && data.next_task_id < u64::MAX;
    if numbered {
        editing_a_task_keeps_numbers(data, key, edit);
        deleting_keeps_numbers(data, key, list_id);
        creating_keeps_numbers(data, list_id, today);
    }
    if left {
        moving_keeps_numbers(data, key, list_id);
    }
    settling_is_sound(data.edited_task(key, edit), today, numbered);
    settling_is_sound(data.without_task(key), today, numbered);
    settling_is_sound(data.without_list(list_id), today, numbered);
    settling_is_sound(data.with_task_moved(key, list_id), today, left);
    if data.next_task_id < u64::MAX {
        settling_is_sound(data.with_new_task(list_id, today), today, numbered);
    }
    if data.next_list_id < u64::MAX {
        settling_is_sound(Some(data.with_new_list()), today, numbered);
    }
}

proof fn field_edits_are_sound(
    data: DataModel,
    key: TaskKey,
    field: TaskField,
    list_id: u64,
    list_field: ListField,
    input: Seq<char>,
    today: int,
    numbered: bool,
)
    requires
        is_sound(data, numbered),
    ensures
        keeps_sound(task_field_set(data, key, field, input, today), today, numbered),
        keeps_sound(list_field_set(data, list_id, list_field, input, today), today, numbered),
{
    task_edits_are_sound(data, key, set_title(trimmed(input)), list_id, today, numbered);
    if let Some(value) = parsed_number(input, u32::MAX as nat) {
        task_edits_are_sound(data, key, set_estimated(value as u32), list_id, today, numbered);
        task_edits_are_sound(data, key, set_actual(value as u32), list_id, today, numbered);
    }
    if let Some(day) = parsed_day(trimmed(input)) {
        task_edits_are_sound(data, key, set_due_date(day), list_id, today, numbered);
    }
    let priority = match parsed_number(input, u8::MAX as nat) {
        Some(value) => value as u8,
        None => 0,
    };
    edits_keep_lists_sound(
        data,
        key,
        |task: TaskModel| task,
        list_id,
        input,
        input,
        priority,
        today,
    );
    let color = crate::color::normalized_color(input);
    if numbered {
        editing_a_list_keeps_numbers(data, list_id, set_name(trimmed(input)));
        editing_a_list_keeps_numbers(data, list_id, set_priority(priority));
        editing_a_list_keeps_numbers(data, list_id, set_color(color));
    }
    if trimmed(input).len() > 0 {
        settling_is_sound(data.edited_list(list_id, set_name(trimmed(input))), today, numbered);
    }
    if crate::color::parsed_color(input) is Some {
        settling_is_sound(data.edited_list(list_id, set_color(color)), today, numbered);
    }
    settling_is_sound(data.edited_list(list_id, set_priority(priority)), today, numbered);
}

/// An edit that keeps every list one that could be loaded.
pub open spec fn keeps_lists_sound(step: spec_fn(DataModel, TaskKey) -> Option<DataModel>) -> bool {
    forall|data: DataModel, key: TaskKey|
        has_sound_lists(data) ==> (#[trigger] step(data, key) matches Some(after)
            ==> has_sound_lists(after))
}

proof fn many_edits_keep_lists_sound(
    data: DataModel,
    keys: Seq<TaskKey>,
    step: spec_fn(DataModel, TaskKey) -> Option<DataModel>,
)
    requires
        has_sound_lists(data),
        keeps_lists_sound(step),
    ensures
        has_sound_lists(data.for_keys(keys, step)),
    decreases keys.len(),
{
    if keys.len() > 0 {
        many_edits_keep_lists_sound(data, keys.drop_last(), step);
    }
}

proof fn multi_edits_are_sound(
    data: DataModel,
    keys: Seq<TaskKey>,
    day: int,
    list_id: u64,
    today: int,
    numbered: bool,
)
    requires
        is_sound(data, numbered),
    ensures
        keeps_sound(settled(data.edited_by_keys(keys, due_date_step(day)), today), today, numbered),
        keeps_sound(
            settled(data.edited_by_keys(keys, move_step(list_id)), today),
            today,
            numbered && data.next_task_id + keys.len() <= u64::MAX,
        ),
        keeps_sound(settled(data.edited_by_keys(keys, delete_step()), today), today, numbered),
{
    let left = numbered && data.next_task_id + keys.len() <= u64::MAX;
    if numbered {
        editing_several_tasks_keeps_numbers(data, keys, day, list_id);
    }
    assert(keeps_lists_sound(due_date_step(day)) && keeps_lists_sound(move_step(list_id))
        && keeps_lists_sound(delete_step())) by {
        assert forall|d: DataModel, key: TaskKey| has_sound_lists(d) implies (
        #[trigger] due_date_step(day)(d, key) matches Some(after) ==> has_sound_lists(after)) by {
            edits_keep_lists_sound(
                d,
                key,
                set_due_date(day),
                list_id,
                Seq::empty(),
                Seq::empty(),
                0,
                0,
            );
        }
        assert forall|d: DataModel, key: TaskKey| has_sound_lists(d) implies (
        #[trigger] move_step(list_id)(d, key) matches Some(after) ==> has_sound_lists(after)) by {
            edits_keep_lists_sound(
                d,
                key,
                set_due_date(day),
                list_id,
                Seq::empty(),
                Seq::empty(),
                0,
                0,
            );
        }
        assert forall|d: DataModel, key: TaskKey| has_sound_lists(d) implies (
        #[trigger] delete_step()(d, key) matches Some(after) ==> has_sound_lists(after)) by {
            edits_keep_lists_sound(
                d,
                key,
                set_due_date(day),
                list_id,
                Seq::empty(),
                Seq::empty(),
                0,
                0,
            );
        }
    }
    many_edits_keep_lists_sound(data, keys, due_date_step(day));
    many_edits_keep_lists_sound(data, keys, move_step(list_id));
    many_edits_keep_lists_sound(data, keys, delete_step());
    settling_is_sound(data.edited_by_keys(keys, due_date_step(day)), today, numbered);
    settling_is_sound(data.edited_by_keys(keys, move_step(list_id)), today, left);
    settling_is_sound(data.edited_by_keys(keys, delete_step()), today, numbered);
}

proof fn row_steps_are_sound(app: AppModel, delta: int, today: int, numbered: bool)
    requires
        is_sound(app.data, numbered),
    ensures
        row_moved(app, delta).data == app.data,
        rows_selected(app, delta).data == app.data,
        row_opened(app).data == app.data,
        is_sound_step(app.data, row_toggled(app, today), today, numbered),
        row_delete_asked(app).data == app.data,
        sort_toggled(app).data == app.data,
        order_toggled(app).data == app.data,
{
    reveal(row_moved);
    reveal(rows_selected);
    reveal(row_opened);
    reveal(multi_edit_opened);
    reveal(row_toggled);
    reveal(row_delete_asked);
    reveal(sort_toggled);
    reveal(order_toggled);
    if app.current_index() < app.current_items().len() {
        let key = app.current_items()[app.current_index() as int].key;
        task_edits_are_sound(app.data, key, toggle(today), 0, today, numbered);
    }
}

proof fn creating_a_task_is_sound(
    app: AppModel,
    list_id: u64,
    today: int,
    in_list: bool,
    numbered: bool,
)
    requires
        is_sound(app.data, numbered),
        app.data.list_index(list_id) is Some ==> app.data.next_task_id < u64::MAX,
    ensures
        is_sound_step(app.data, task_created(app, list_id, today, in_list), today, numbered),
{
    reveal(task_created);
    task_edits_are_sound(
        app.data,
        TaskKey { list_id, task_id: 0 },
        toggle(today),
        list_id,
        today,
        numbered,
    );
}

proof fn main_steps_are_sound(app: AppModel, key: KeyPress, today: int, numbered: bool)
    requires
        is_sound(app.data, numbered),
        app.expanded_list_id is None,
        rows_accept(app, key),
    ensures
        is_sound_step(app.data, main_key(app, key, today), today, numbered),
{
    row_steps_are_sound(app, 1, today, numbered);
    row_steps_are_sound(app, -1, today, numbered);
    reveal(quit);
    reveal(page_shown);
    reveal(search_started);
    reveal(search_cleared);
    reveal(main_task_created);
    reveal(notes_opened);
    let ranked = crate::items::list_items(app.data.lists, crate::task::ListSortMode::Priority);
    if key.code == KeyCode::Char('n') && ranked.len() > 0 {
        crate::item_laws::each_list_has_its_row(
            app.data.lists,
            crate::task::ListSortMode::Priority,
            ranked[0],
        );
        creating_a_task_is_sound(app, ranked[0].list_id, today, false, numbered);
    }
}

proof fn list_page_steps_are_sound(app: AppModel, key: KeyPress, today: int, numbered: bool)
    requires
        is_sound(app.data, numbered),
        key.code == KeyCode::Char('n') ==> app.data.next_list_id < u64::MAX,
    ensures
        is_sound_step(app.data, list_page_key(app, key, today), today, numbered),
{
    reveal(quit);
    reveal(page_shown);
    reveal(list_search_started);
    reveal(list_sort_toggled);
    reveal(list_order_toggled);
    reveal(list_moved);
    reveal(selected_list_opened);
    reveal(list_delete_asked);
    reveal(list_created);
    reveal(notes_opened);
    task_edits_are_sound(
        app.data,
        TaskKey { list_id: 0, task_id: 0 },
        toggle(today),
        0,
        today,
        numbered,
    );
}

proof fn open_list_steps_are_sound(
    app: AppModel,
    list_id: u64,
    key: KeyPress,
    today: int,
    numbered: bool,
)
    requires
        is_sound(app.data, numbered),
        app.expanded_list_id == Some(list_id),
        rows_accept(app, key),
    ensures
        is_sound_step(app.data, open_list_key(app, list_id, key, today), today, numbered),
{
    row_steps_are_sound(app, 1, today, numbered);
    row_steps_are_sound(app, -1, today, numbered);
    reveal(list_edit_started);
    if key.code == KeyCode::Char('n') {
        creating_a_task_is_sound(app, list_id, today, true, numbered);
    }
}

proof fn open_task_steps_are_sound(
    app: AppModel,
    task_key: TaskKey,
    key: KeyPress,
    today: int,
    numbered: bool,
)
    requires
        is_sound(app.data, numbered),
    ensures
        is_sound_step(app.data, open_task_key(app, task_key, key, today), today, numbered),
{
    reveal(task_toggled);
    reveal(description_opened);
    reveal(task_edit_started);
    reveal(task_delete_asked);
    task_edits_are_sound(app.data, task_key, toggle(today), 0, today, numbered);
}

proof fn editor_steps_are_sound(
    app: AppModel,
    editor: EditorModel,
    key: KeyPress,
    today: int,
    numbered: bool,
)
    requires
        is_sound(app.data, numbered),
        numbered ==> app.data.next_task_id < u64::MAX,
    ensures
        is_sound_step(app.data, editor_key(app, editor, key, today), today, numbered),
{
    reveal(field_taken);
    reveal(list_chosen);
    let input = editor.input.text;
    match editor.target {
        EditTarget::Task(task_key, field) => {
            field_edits_are_sound(
                app.data,
                task_key,
                field,
                0,
                ListField::Name,
                input,
                today,
                numbered,
            );
            if let Some(list_id) = crate::editing::chosen_list(
                app.data.lists,
                input,
                editor.suggestion_index,
            ) {
                task_edits_are_sound(app.data, task_key, toggle(today), list_id, today, numbered);
            }
        },
        EditTarget::List(list_id, field) => {
            field_edits_are_sound(
                app.data,
                TaskKey { list_id, task_id: 0 },
                TaskField::Title,
                list_id,
                field,
                input,
                today,
                numbered,
            );
        },
    }
}

proof fn confirm_steps_are_sound(
    app: AppModel,
    question: ConfirmModel,
    key: KeyPress,
    today: int,
    numbered: bool,
)
    requires
        is_sound(app.data, numbered),
    ensures
        is_sound_step(app.data, confirm_key(app, question, key, today), today, numbered),
{
    reveal(task_deleted);
    reveal(tasks_deleted);
    reveal(list_deleted);
    match question.action {
        ActionModel::DeleteTask(task_key) => {
            task_edits_are_sound(app.data, task_key, toggle(today), 0, today, numbered);
        },
        ActionModel::DeleteTasks(keys) => {
            multi_edits_are_sound(app.data, keys, 0, 0, today, numbered);
        },
        ActionModel::DeleteList(list_id) => {
            task_edits_are_sound(
                app.data,
                TaskKey { list_id, task_id: 0 },
                toggle(today),
                list_id,
                today,
                numbered,
            );
        },
    }
}

proof fn multi_steps_are_sound(
    app: AppModel,
    state: MultiModel,
    key: KeyPress,
    today: int,
    numbered: bool,
)
    requires
        is_sound(app.data, numbered),
        numbered ==> app.data.next_task_id + state.keys.len() <= u64::MAX,
    ensures
        is_sound_step(app.data, multi_key(app, state, key, today), today, numbered),
{
    reveal(multi_date_taken);
    reveal(multi_list_taken);
    reveal(multi_delete_asked);
    let day = match parsed_day(trimmed(state.input.text)) {
        Some(day) => day,
        None => 0,
    };
    let list_id = match crate::editing::chosen_list(
        app.data.lists,
        state.input.text,
        state.suggestion_index,
    ) {
        Some(list_id) => list_id,
        None => 0,
    };
    multi_edits_are_sound(app.data, state.keys, day, list_id, today, numbered);
}

/// Whatever key is pressed, the data stay as they are, or they are saved: then every list could be
/// loaded and nothing is overdue, and the numbers are in order if they were and there were enough
/// left for tasks that are moved.
pub proof fn every_edit_is_saved(app: AppModel, key: KeyPress, today: int)
    requires
        has_sound_lists(app.data),
        accepts(app, key),
    ensures
        is_sound_step(app.data, pressed(app, key, today), today, numbers_are_left(app)),
{
    let numbered = numbers_are_left(app);
    if let Some(state) = app.multi_task_edit {
        multi_steps_are_sound(app, state, key, today, numbered);
    } else if let Some(question) = app.confirm {
        confirm_steps_are_sound(app, question, key, today, numbered);
    } else if app.show_popup {
    } else if let Some(editor) = app.editor {
        editor_steps_are_sound(app, editor, key, today, numbered);
    } else if let Some(task_key) = app.expanded_task_key {
        open_task_steps_are_sound(app, task_key, key, today, numbered);
    } else if let Some(list_id) = app.expanded_list_id {
        open_list_steps_are_sound(app, list_id, key, today, numbered);
    } else {
        match app.page {
            Page::Main => {
                if !app.search_active {
                    main_steps_are_sound(app, key, today, numbered);
                }
            },
            Page::TaskLists => {
                if !app.list_search_active {
                    list_page_steps_are_sound(app, key, today, numbered);
                }
            },
        }
    }
}

/// So it is with a text that comes back from the text editor.
pub proof fn every_text_is_saved(
    app: AppModel,
    purpose: TextPurpose,
    content: Result<Seq<char>, Seq<char>>,
    today: int,
)
    requires
        has_sound_lists(app.data),
    ensures
        is_sound_step(
            app.data,
            text_edited(app, purpose, content, today),
            today,
            is_numbered(app.data),
        ),
{
    let numbered = is_numbered(app.data);
    if let Ok(text) = content {
        if let TextPurpose::Description(key) = purpose {
            task_edits_are_sound(
                app.data,
                key,
                set_description(crate::scratchpad::without_help(text)),
                0,
                today,
                numbered,
            );
        }
    }
}

/// `esc` gives up what is being typed or asked: the data stay as they are, nothing is saved, and
/// the line or the question is gone.
pub proof fn esc_cancels(app: AppModel, key: KeyPress, today: int)
    requires
        key.code == KeyCode::Esc,
    ensures
        pressed(app, key, today).app.data == app.data,
        pressed(app, key, today).effect is Idle,
        app.multi_task_edit is None && app.confirm is Some ==> pressed(
            app,
            key,
            today,
        ).app.confirm is None,
        app.multi_task_edit is None && app.confirm is None && !app.show_popup && app.editor is Some
            ==> pressed(app, key, today).app.editor is None,
{
    reveal(search_cleared);
}

/// `enter` closes the line of a field, whatever was typed.
pub proof fn enter_closes_the_field(app: AppModel, key: KeyPress, today: int)
    requires
        key.code == KeyCode::Enter,
        app.multi_task_edit is None,
        app.confirm is None,
        !app.show_popup,
        app.editor is Some,
    ensures
        pressed(app, key, today).app.editor is None,
{
    reveal(field_taken);
    reveal(list_chosen);
}

/// A key that asks for a task to be deleted only asks.
pub proof fn deleting_asks_first(app: AppModel)
    requires
        app.current_index() < app.current_items().len(),
    ensures
        row_delete_asked(app).data == app.data,
        row_delete_asked(app).confirm matches Some(question) && question.action
            == ActionModel::DeleteTask(app.current_items()[app.current_index() as int].key),
{
    reveal(row_delete_asked);
}

/// The program ends with `q` on a page, and with nothing else.
pub proof fn only_q_ends_the_program(app: AppModel, key: KeyPress, today: int)
    requires
        app.running,
        !pressed(app, key, today).app.running,
    ensures
        key.code == KeyCode::Char('q'),
        is_uncovered(app),
        app.expanded_list_id is None,
{
    if let Some(state) = app.multi_task_edit {
        reveal(multi_date_taken);
        reveal(multi_list_taken);
        reveal(multi_delete_asked);
    } else if app.confirm is Some {
        reveal(task_deleted);
        reveal(tasks_deleted);
        reveal(list_deleted);
    } else if app.show_popup {
    } else if let Some(editor) = app.editor {
        reveal(field_taken);
        reveal(list_chosen);
    } else if app.expanded_task_key is Some {
        reveal(task_toggled);
        reveal(description_opened);
        reveal(task_edit_started);
        reveal(task_delete_asked);
    } else {
        reveal(row_moved);
        reveal(rows_selected);
        reveal(row_opened);
        reveal(multi_edit_opened);
        reveal(row_toggled);
        reveal(row_delete_asked);
        reveal(sort_toggled);
        reveal(order_toggled);
        reveal(task_created);
        reveal(main_task_created);
        reveal(list_edit_started);
        reveal(page_shown);
        reveal(search_started);
        reveal(search_cleared);
        reveal(notes_opened);
        reveal(list_search_started);
        reveal(list_sort_toggled);
        reveal(list_order_toggled);
        reveal(list_moved);
        reveal(selected_list_opened);
        reveal(list_delete_asked);
        reveal(list_created);
    }
}

/// What may stand in the line of a field: a title has no more than 30 characters, a number has only
/// digits, a date has only digits and `-`, a color has only what a color has and no more of it.
pub open spec fn is_within_limits(target: EditTarget, text: Seq<char>) -> bool {
    match target {
        EditTarget::Task(_, TaskField::Title) => text.len() <= 30,
        EditTarget::Task(_, TaskField::ListName) => true,
        EditTarget::List(_, ListField::Name) => true,
        EditTarget::List(_, ListField::Color) => text.len() <= 7 && forall|i: int|
            0 <= i < text.len() ==> crate::color::is_hex_digit(#[trigger] text[i]) || text[i]
                == '#',
        EditTarget::Task(_, TaskField::DueDate) => forall|i: int|
            0 <= i < text.len() ==> is_digit(#[trigger] text[i]) || text[i] == '-',
        _ => forall|i: int| 0 <= i < text.len() ==> is_digit(#[trigger] text[i]),
    }
}

/// Whatever is typed, the line of a field keeps within its limits.
pub proof fn typing_keeps_within_limits(
    lists: Seq<ListModel>,
    editor: EditorModel,
    key: KeyPress,
)
    requires
        editor.input.wf(),
        is_within_limits(editor.target, editor.input.text),
    ensures
        is_within_limits(editor.target, field_key(lists, editor, key).input.text),
{
    let before = editor.input.text;
    let after = field_key(lists, editor, key).input.text;
    assert forall|i: int|
        #![trigger after[i]]
        0 <= i < after.len() implies (exists|k: int|
        0 <= k < before.len() && #[trigger] before[k] == after[i]) || (exists|c: char|
        key.code == KeyCode::Char(c) && c == after[i] && #[trigger] is_typed(
            editor.target,
            c,
            before.len(),
        )) by {
        let cursor = editor.input.cursor;
        match key.code {
            KeyCode::Char(c) => {
                if after == before {
                    assert(before[i] == after[i]);
                } else if i < cursor {
                    assert(before[i] == after[i]);
                } else if i > cursor {
                    assert(before[i - 1] == after[i]);
                } else {
                    assert(is_typed(editor.target, c, before.len()));
                }
            },
            KeyCode::Backspace => {
                if cursor > 0 && i >= cursor - 1 {
                    assert(before[i + 1] == after[i]);
                } else {
                    assert(before[i] == after[i]);
                }
            },
            KeyCode::Delete => {
                if cursor < before.len() && i >= cursor {
                    assert(before[i + 1] == after[i]);
                } else {
                    assert(before[i] == after[i]);
                }
            },
            _ => {
                assert(before[i] == after[i]);
            },
        }
    }
}

/// What is taken over as it stood in its line is what it was: to open the line of a number, a date,
/// or a title without white space around it, and to close it with `enter`, changes nothing.
pub proof fn unchanged_task_fields_stay(
    app: AppModel,
    key: TaskKey,
    field: TaskField,
    ymd: (int, int, int),
    today: int,
)
    requires
        app.data.task(key) matches Some(task) && {
            &&& field == TaskField::Title ==> task.title.len() > 0 && trimmed(task.title)
                == task.title
            &&& field == TaskField::DueDate ==> is_calendar_day(ymd.0, ymd.1, ymd.2)
                && task.due_date == day_number(ymd.0, ymd.1, ymd.2)
        },
        field != TaskField::ListName,
    ensures
        task_field_set(
            app.data,
            key,
            field,
            task_field_text(app, key, app.data.task(key).unwrap(), field),
            today,
        ) == settled(Some(app.data), today),
{
    let data = app.data;
    let task = data.task(key).unwrap();
    match field {
        TaskField::Title => {
            unchanged_task(data, key, set_title(task.title));
        },
        TaskField::Estimated => {
            decimal_reads_back(task.estimated_minutes as nat, u32::MAX as nat);
            unchanged_task(data, key, set_estimated(task.estimated_minutes));
        },
        TaskField::Actual => {
            decimal_reads_back(task.actual_minutes as nat, u32::MAX as nat);
            unchanged_task(data, key, set_actual(task.actual_minutes));
        },
        TaskField::DueDate => {
            day_text_reads_back(ymd.0, ymd.1, ymd.2);
            day_text_is_trimmed(ymd.0, ymd.1, ymd.2);
            unchanged_task(data, key, set_due_date(task.due_date));
        },
        TaskField::ListName => {},
    }
}

proof fn unchanged_task(data: DataModel, key: TaskKey, edit: spec_fn(TaskModel) -> TaskModel)
    requires
        data.task(key) matches Some(task) && edit(task) == task,
    ensures
        data.edited_task(key, edit) == Some(data),
{
    let (i, j) = data.position(key).unwrap();
    let after = data.edited_task(key, edit).unwrap();
    assert(after.lists[i].tasks == data.lists[i].tasks);
    assert(after.lists[i] == data.lists[i]);
    assert(after.lists == data.lists);
}

proof fn day_text_is_trimmed(year: int, month: int, day: int)
    requires
        is_calendar_day(year, month, day),
    ensures
        trimmed(day_text(day_number(year, month, day))) == day_text(day_number(year, month, day)),
{
    crate::date::day_text_of(year, month, day);
    crate::date::ymd_text_ends(year, month, day);
}

/// The same holds of the priority of a list, of a name without white space around it, and of a
/// color in its one form.
pub proof fn unchanged_list_fields_stay(data: DataModel, list_id: u64, field: ListField, today: int)
    requires
        data.list(list_id) matches Some(list) && {
            &&& field == ListField::Name ==> list.name.len() > 0 && trimmed(list.name) == list.name
            &&& field == ListField::Color ==> crate::color::parsed_color(list.color_hex) is Some
                && crate::color::normalized_color(list.color_hex) == list.color_hex
        },
    ensures
        list_field_set(
            data,
            list_id,
            field,
            list_field_text(data.list(list_id).unwrap(), field),
            today,
        ) == settled(Some(data), today),
{
    let list = data.list(list_id).unwrap();
    decimal_reads_back(list.priority as nat, u8::MAX as nat);
    let i = data.list_index(list_id).unwrap();
    assert(data.lists.update(i, data.lists[i]) == data.lists);
    assert(set_name(list.name)(list) == list);
    assert(set_priority(list.priority)(list) == list);
    assert(set_color(list.color_hex)(list) == list);
}

} // verus!
