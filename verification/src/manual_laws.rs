//! What each key does wherever the program stands, and what follows when outside work is done, told
//! by the fields of the state.

use vstd::prelude::*;
use vstd::seq_lib::*;

use crate::color::{normalized_color, parsed_color};
use crate::data::{
    delete_step, due_date_step, move_step, set_actual, set_color, set_description, set_due_date,
    set_estimated, set_name, set_priority, set_title, settled, toggle, DataModel,
};
use crate::date::{day_text, parsed_day};
use crate::editing::{
    chosen_list, field_taken, list_chosen, list_deleted, multi_date_taken, multi_delete_asked,
    multi_list_taken, task_deleted, tasks_deleted, tasks_settled,
};
use crate::effects::{
    has_item_id, notes_written, saved, text_edited, AfterSave, EffectModel, Step, TextPurpose,
};
use crate::input::{KeyCode, KeyPress, LineModel};
use crate::items::{list_items, suggestions, task_items};
use crate::keys::{
    anchor_of, description_opened, distinct, distinct_is_distinct, item_keys, list_created,
    list_delete_asked, list_edit_started, list_moved, list_order_toggled, list_search_started,
    list_sort_toggled, main_task_created, multi_edit_opened, notes_opened, order_toggled,
    page_shown, quit, range_keys, row_delete_asked, row_moved, row_opened, row_toggled,
    rows_selected, search_cleared, search_started, selected_list_opened, sort_toggled, task_created,
    task_delete_asked, task_edit_started, task_toggled,
};
use crate::labels::shown_text;
use crate::program::{accepts, pressed};
use crate::scratchpad::{closed_lines, with_help, without_help};
use crate::seqs::{first_where_is, is_first_where};
use crate::state::{
    clamped, is_list_found, shifted, started, ActionModel, AppModel, ConfirmModel, EditTarget,
    EditorModel, ListField, MultiModel, MultiTaskEditMode, Page, TaskField,
};
use crate::task::{ListItemModel, ListSortMode, TaskItemModel, TaskKey, TaskSortMode};
use crate::text::{decimal, has_substring, lower, occurs_at, parsed_number, trimmed};

verus! {

/// The state, with nothing to do outside.
pub open spec fn stays(app: AppModel) -> Step {
    Step { app, effect: EffectModel::Idle }
}

/// No rows are selected together.
pub open spec fn cleared(app: AppModel) -> AppModel {
    AppModel {
        task_selection_anchor: None,
        multi_selected_tasks: Seq::empty(),
        multi_task_edit: None,
        ..app
    }
}

/// The state with a message in front.
pub open spec fn tells(app: AppModel, message: Seq<char>) -> AppModel {
    AppModel { popup_messages: app.popup_messages.push(message), show_popup: true, ..app }
}

/// The data as an edit leaves them, to be saved; without a result, all as it was.
pub open spec fn saves(app: AppModel, after: Option<DataModel>) -> Step {
    match after {
        Some(data) => Step {
            app: AppModel { data, ..app },
            effect: EffectModel::Save(AfterSave::Report),
        },
        None => stays(app),
    }
}

/// The nearest to `n` of the positions of `len` rows, or zero where there are none.
pub open spec fn nearest(n: int, len: nat) -> int {
    if len == 0 || n < 0 {
        0
    } else if n >= len {
        len - 1
    } else {
        n
    }
}

/// A line without text.
pub open spec fn blank_line() -> LineModel {
    LineModel { text: Seq::empty(), cursor: 0 }
}

/// A line with a text, the cursor behind it.
pub open spec fn full_line(text: Seq<char>) -> LineModel {
    LineModel { text, cursor: text.len() as int }
}

/// A selection that is moved or kept stands at the nearest row.
pub proof fn selections_stand_at_the_nearest_row(current: usize, len: nat, delta: int)
    requires
        len <= usize::MAX,
    ensures
        shifted(current, len, delta) as int == nearest(current + delta, len),
        clamped(current, len) as int == nearest(current as int, len),
{
}

/// The rows of the main page are those of all lists that its search finds; those of an open list
/// are all of that list; both are sorted as chosen. The rows in front are those of the open list,
/// if one is open.
pub proof fn rows_are_those_of_the_place(app: AppModel, list_id: u64)
    ensures
        app.main_items() == task_items(
            app.data.lists,
            None,
            app.search.text,
            app.main_sort_mode,
            app.time_left_reversed,
            app.show_completed_in_due_mode,
        ),
        app.items_of_list(list_id) == task_items(
            app.data.lists,
            Some(list_id),
            Seq::empty(),
            app.main_sort_mode,
            app.time_left_reversed,
            app.show_completed_in_due_mode,
        ),
        app.expanded_list_id is None ==> app.current_items() == app.main_items()
            && app.current_index() == app.selected_main_idx,
        app.expanded_list_id == Some(list_id) ==> app.current_items() == app.items_of_list(list_id)
            && app.current_index() == app.selected_list_task_idx,
{
    reveal(AppModel::main_items);
    reveal(AppModel::items_of_list);
    reveal_strlit("");
    assert(""@ == Seq::<char>::empty());
}

/// The rows of the task list page are those of the lists in their order, turned round where so
/// chosen, whose names hold what is searched for, upper and lower case not told apart.
pub proof fn list_rows_are_those_that_are_found(app: AppModel)
    ensures
        ({
            let sorted = list_items(app.data.lists, app.list_sort_mode);
            let turned = if app.list_sort_reversed {
                Seq::new(sorted.len(), |i: int| sorted[sorted.len() - 1 - i])
            } else {
                sorted
            };
            app.page_lists() == turned.filter(
                |item: ListItemModel|
                    has_substring(lower(item.name), lower(trimmed(app.list_search.text))),
            )
        }),
{
    reveal(AppModel::page_lists);
    let query = app.list_search.text;
    let sorted = list_items(app.data.lists, app.list_sort_mode);
    assert(sorted.reverse() =~= Seq::new(sorted.len(), |i: int| sorted[sorted.len() - 1 - i]));
    let p = is_list_found(query);
    let q = |item: ListItemModel|
        has_substring(lower(item.name), lower(trimmed(app.list_search.text)));
    assert forall|item: ListItemModel| #[trigger] p(item) == q(item) by {
        let needle = lower(trimmed(query));
        if needle.len() == 0 {
            assert(lower(item.name).subrange(0, 0) == needle);
            assert(occurs_at(lower(item.name), needle, 0));
        }
    }
    assert(p =~= q);
}

/// The program begins on the main page, by due date with completed tasks shown, lists by their open
/// tasks, nothing searched for, selected, open or asked, and with the messages of the start in
/// front.
pub proof fn the_program_begins_blank(
    data: DataModel,
    messages: Seq<Seq<char>>,
    notes: Seq<char>,
)
    ensures
        started(data, messages, notes) == (AppModel {
            data,
            page: Page::Main,
            running: true,
            main_sort_mode: TaskSortMode::DueDate,
            list_sort_mode: ListSortMode::RemainingCount,
            list_sort_reversed: false,
            time_left_reversed: false,
            show_completed_in_due_mode: true,
            search_active: false,
            search: blank_line(),
            list_search_active: false,
            list_search: blank_line(),
            selected_main_idx: 0,
            selected_list_idx: 0,
            selected_list_task_idx: 0,
            task_selection_anchor: None,
            multi_selected_tasks: Seq::empty(),
            expanded_list_id: None,
            expanded_task_key: None,
            editor: None,
            multi_task_edit: None,
            confirm: None,
            popup_messages: messages,
            show_popup: messages.len() > 0,
            notes_text: notes,
        }),
{
}

/// Nothing stands in front of the open list or the page.
pub open spec fn is_bare(app: AppModel) -> bool {
    &&& app.multi_task_edit is None
    &&& app.confirm is None
    &&& !app.show_popup
    &&& app.editor is None
    &&& app.expanded_task_key is None
}

/// A key that moves among rows of tasks by `delta`.
pub open spec fn moves_by(key: KeyPress, delta: int) -> bool {
    ||| delta == 1 && (key.code == KeyCode::Char('j') || (key.code == KeyCode::Down && !key.shift))
    ||| delta == -1 && (key.code == KeyCode::Char('k') || (key.code == KeyCode::Up && !key.shift))
}

/// A key that selects rows on to the one `delta` further.
pub open spec fn selects_by(key: KeyPress, delta: int) -> bool {
    ||| delta == 1 && (key.code == KeyCode::Char('J') || (key.code == KeyCode::Down && key.shift))
    ||| delta == -1 && (key.code == KeyCode::Char('K') || (key.code == KeyCode::Up && key.shift))
}

/// Rows of tasks are in front and take the keys: those of an open list or of the main page.
pub open spec fn rows_in_front(app: AppModel) -> bool {
    is_bare(app) && (app.expanded_list_id is Some || (app.page == Page::Main
        && !app.search_active))
}

/// The state with another selected row among those in front.
pub open spec fn at_row(app: AppModel, row: int) -> AppModel {
    if app.expanded_list_id is Some {
        AppModel { selected_list_task_idx: row as usize, ..app }
    } else {
        AppModel { selected_main_idx: row as usize, ..app }
    }
}

/// A row is moved to with the arrows or `j` and `k`; nothing is selected with it.
pub proof fn moving_selects_one_row(app: AppModel, key: KeyPress, delta: int, today: int)
    requires
        rows_in_front(app),
        moves_by(key, delta),
        app.current_items().len() <= usize::MAX,
    ensures
        pressed(app, key, today) == stays(
            at_row(
                cleared(app),
                nearest(app.current_index() + delta, app.current_items().len()),
            ),
        ),
{
    reveal(row_moved);
}

/// The key of a row is selected where the row lies between two others, or is one of them.
pub proof fn both_ends_are_selected(items: Seq<TaskItemModel>, a: usize, b: usize, key: TaskKey)
    requires
        a < items.len(),
        b < items.len(),
    ensures
        range_keys(items, a, b).contains(key) <==> exists|p: int|
            #![trigger items[p]]
            0 <= p < items.len() && ((a <= p <= b) || (b <= p <= a)) && items[p].key == key,
        range_keys(items, a, b).contains(items[a as int].key),
        range_keys(items, a, b).contains(items[b as int].key),
        range_keys(items, a, b).no_duplicates(),
        range_keys(items, a, b) == range_keys(items, b, a),
{
    let (low, high) = if a < b {
        (a as int, b as int)
    } else {
        (b as int, a as int)
    };
    let part = items.subrange(low, high + 1);
    let keys = item_keys(part);
    assert(range_keys(items, a, b) == distinct(keys));
    distinct_is_distinct(keys);
    assert(distinct(keys).contains(key) <==> keys.contains(key));
    if keys.contains(key) {
        let k = choose|k: int| 0 <= k < keys.len() && keys[k] == key;
        assert(items[low + k].key == key);
    }
    if exists|p: int|
        #![trigger items[p]]
        0 <= p < items.len() && ((a <= p <= b) || (b <= p <= a)) && items[p].key == key {
        let p = choose|p: int|
            #![trigger items[p]]
            0 <= p < items.len() && ((a <= p <= b) || (b <= p <= a)) && items[p].key == key;
        assert(keys[p - low] == key);
    }
    assert(keys[a - low] == items[a as int].key);
    assert(keys[b - low] == items[b as int].key);
    assert(keys.contains(items[a as int].key) && keys.contains(items[b as int].key));
    assert(distinct(keys).contains(items[a as int].key));
    assert(distinct(keys).contains(items[b as int].key));
}

/// What selecting on leaves behind.
proof fn rows_between_are_selected(app: AppModel, delta: int, each: TaskKey)
    requires
        delta == 1 || delta == -1,
        0 < app.current_items().len() <= usize::MAX,
        app.task_selection_anchor matches Some(anchor) ==> anchor < app.current_items().len(),
    ensures
        ({
            let items = app.current_items();
            let here = nearest(app.current_index() as int, items.len());
            let next = nearest(here + delta, items.len());
            let anchor = match app.task_selection_anchor {
                Some(anchor) => anchor as int,
                None => here,
            };
            let after = rows_selected(app, delta);
            &&& after == (AppModel {
                task_selection_anchor: Some(anchor as usize),
                multi_selected_tasks: after.multi_selected_tasks,
                ..at_row(app, next)
            })
            &&& after.multi_selected_tasks.no_duplicates()
            &&& after.multi_selected_tasks.contains(each) <==> exists|p: int|
                #![trigger items[p]]
                0 <= p < items.len() && ((anchor <= p <= next) || (next <= p <= anchor))
                    && items[p].key == each
        }),
{
    reveal(rows_selected);
    let items = app.current_items();
    let here = clamped(app.current_index(), items.len());
    let next = shifted(here, items.len(), delta);
    both_ends_are_selected(items, anchor_of(app), next, each);
}

/// Which keys select on.
proof fn selecting_keys_select(app: AppModel, key: KeyPress, delta: int, today: int)
    requires
        rows_in_front(app),
        selects_by(key, delta),
    ensures
        pressed(app, key, today) == stays(rows_selected(app, delta)),
{
}

/// Selecting on with shift and the arrows or `J` and `K` moves the selected row by one and selects
/// all rows from the one at which that began to it, both with it, whichever is above the other; and
/// nothing else changes.
pub proof fn selecting_takes_all_rows_between(
    app: AppModel,
    key: KeyPress,
    delta: int,
    today: int,
    each: TaskKey,
)
    requires
        rows_in_front(app),
        selects_by(key, delta),
        app.current_items().len() <= usize::MAX,
        app.task_selection_anchor matches Some(anchor) ==> anchor < app.current_items().len(),
    ensures
        app.current_items().len() == 0 ==> pressed(app, key, today) == stays(cleared(app)),
        app.current_items().len() > 0 ==> {
            let items = app.current_items();
            let here = nearest(app.current_index() as int, items.len());
            let next = nearest(here + delta, items.len());
            let anchor = match app.task_selection_anchor {
                Some(anchor) => anchor as int,
                None => here,
            };
            let after = pressed(app, key, today);
            &&& after == stays(
                AppModel {
                    task_selection_anchor: Some(anchor as usize),
                    multi_selected_tasks: after.app.multi_selected_tasks,
                    ..at_row(app, next)
                },
            )
            &&& after.app.multi_selected_tasks.no_duplicates()
            &&& after.app.multi_selected_tasks.contains(each) <==> exists|p: int|
                #![trigger items[p]]
                0 <= p < items.len() && ((anchor <= p <= next) || (next <= p <= anchor))
                    && items[p].key == each
        },
{
    selecting_keys_select(app, key, delta, today);
    if app.current_items().len() > 0 {
        rows_between_are_selected(app, delta, each);
    } else {
        reveal(rows_selected);
    }
}

/// `enter` opens the task of the selected row; where more than one task is selected, the menu for
/// those of the rows that are selected, in the order of the rows.
pub proof fn enter_opens_what_is_selected(app: AppModel, key: KeyPress, today: int)
    requires
        rows_in_front(app),
        key.code == KeyCode::Enter,
    ensures
        ({
            let items = app.current_items();
            let chosen = items.filter(
                |item: TaskItemModel| app.multi_selected_tasks.contains(item.key),
            ).map_values(|item: TaskItemModel| item.key);
            pressed(app, key, today) == stays(
                if app.multi_selected_tasks.len() > 1 {
                    if chosen.len() < 2 {
                        app
                    } else {
                        AppModel {
                            multi_task_edit: Some(
                                MultiModel {
                                    keys: chosen,
                                    mode: MultiTaskEditMode::Menu,
                                    input: blank_line(),
                                    suggestion_index: 0,
                                },
                            ),
                            ..app
                        }
                    }
                } else if app.current_index() < items.len() {
                    AppModel {
                        expanded_task_key: Some(items[app.current_index() as int].key),
                        ..cleared(app)
                    }
                } else {
                    app
                },
            )
        }),
{
    reveal(row_opened);
    reveal(multi_edit_opened);
    let p = crate::keys::is_selected(app.multi_selected_tasks);
    let q = |item: TaskItemModel| app.multi_selected_tasks.contains(item.key);
    assert(p =~= q);
    assert(item_keys(app.current_items().filter(p)) =~= app.current_items().filter(q).map_values(
        |item: TaskItemModel| item.key,
    ));
}

/// `a` completes the task of the selected row, or marks it as open again, and saves; the row stays
/// selected as far as there are rows, and no others.
pub proof fn a_toggles_the_selected_task(app: AppModel, key: KeyPress, today: int)
    requires
        rows_in_front(app),
        key.code == KeyCode::Char('a'),
        app.current_items().len() <= usize::MAX,
    ensures
        ({
            let items = app.current_items();
            let row = app.current_index() as int;
            let step = saves(
                cleared(app),
                settled(app.data.edited_task(items[row].key, toggle(today)), today),
            );
            pressed(app, key, today) == (if row < items.len() {
                Step {
                    app: at_row(
                        step.app,
                        clamped(app.current_index(), step.app.current_items().len()) as int,
                    ),
                    effect: step.effect,
                }
            } else {
                stays(app)
            })
        }),
{
    reveal(row_toggled);
    reveal(AppModel::main_items);
    reveal(AppModel::items_of_list);
}

/// `d` and the keys that delete ask whether to delete the task of the selected row, by its title.
pub proof fn d_asks_for_the_selected_task(app: AppModel, key: KeyPress, today: int)
    requires
        rows_in_front(app),
        key.code == KeyCode::Char('d') || key.code == KeyCode::Delete || (key.code
            == KeyCode::Backspace && app.expanded_list_id is None),
    ensures
        ({
            let items = app.current_items();
            let row = app.current_index() as int;
            pressed(app, key, today) == stays(
                if row < items.len() {
                    AppModel {
                        confirm: Some(
                            ConfirmModel {
                                message: "Delete task '"@ + shown_text(items[row].title) + "'?"@,
                                action: ActionModel::DeleteTask(items[row].key),
                            },
                        ),
                        ..cleared(app)
                    }
                } else {
                    app
                },
            )
        }),
{
    reveal(row_delete_asked);
}

/// `x` sorts tasks the other way; `c` turns the order by time left round, or by due date hides or
/// shows completed tasks. Both go to the first row.
pub proof fn x_and_c_change_the_order(app: AppModel, key: KeyPress, today: int)
    requires
        rows_in_front(app),
    ensures
        key.code == KeyCode::Char('x') ==> pressed(app, key, today) == stays(
            at_row(
                cleared(
                    AppModel {
                        main_sort_mode: if app.main_sort_mode == TaskSortMode::DueDate {
                            TaskSortMode::TimeLeft
                        } else {
                            TaskSortMode::DueDate
                        },
                        ..app
                    },
                ),
                0,
            ),
        ),
        key.code == KeyCode::Char('c') && app.main_sort_mode == TaskSortMode::TimeLeft ==> pressed(
            app,
            key,
            today,
        ) == stays(
            at_row(
                cleared(AppModel { time_left_reversed: !app.time_left_reversed, ..app }),
                0,
            ),
        ),
        key.code == KeyCode::Char('c') && app.main_sort_mode == TaskSortMode::DueDate ==> pressed(
            app,
            key,
            today,
        ) == stays(
            at_row(
                cleared(
                    AppModel {
                        show_completed_in_due_mode: !app.show_completed_in_due_mode,
                        ..app
                    },
                ),
                0,
            ),
        ),
{
    reveal(sort_toggled);
    reveal(order_toggled);
}

/// What the text editor is handed: a block of help, an empty line, and the text.
pub open spec fn help_and(lines: Seq<Seq<char>>, text: Seq<char>) -> Seq<char> {
    "# ----- life-tracking help -----"@ + seq!['\n'] + closed_lines(lines)
        + "# ----- end life-tracking help -----"@ + seq!['\n', '\n'] + text
}

proof fn help_is_in_front(lines: Seq<Seq<char>>, text: Seq<char>)
    ensures
        with_help(lines, text) == help_and(lines, text),
{
    assert(with_help(lines, text) =~= help_and(lines, text));
}

/// The lines of help for the notes.
pub open spec fn help_for_notes() -> Seq<Seq<char>> {
    seq![
        "# Notes editor"@,
        "#"@,
        "# Edit freely, then save and quit with :wq"@,
        "# Quit without saving with :q!"@,
        "# Lines in this help block are ignored when saved"@,
    ]
}

/// The lines of help for a description.
pub open spec fn help_for_descriptions() -> Seq<Seq<char>> {
    seq![
        "# Task description editor"@,
        "#"@,
        "# Write any task details you want to keep"@,
        "# Save and quit with :wq"@,
        "# Quit without saving with :q!"@,
        "# Lines in this help block are ignored when saved"@,
    ]
}

/// The other keys of the main page: `q` quits, `/` begins to search at the end of the line, `esc`
/// clears the search and goes to the first row, `u` shows the lists, `o` hands the notes to the
/// text editor, `n` puts a new task into the list of the least priority number and opens it once it
/// is saved, or tells that there is no list.
pub proof fn keys_of_the_main_page(app: AppModel, key: KeyPress, today: int)
    requires
        is_bare(app),
        app.expanded_list_id is None,
        app.page == Page::Main,
        !app.search_active,
    ensures
        key.code == KeyCode::Char('q') ==> pressed(app, key, today) == stays(
            AppModel { running: false, ..app },
        ),
        key.code == KeyCode::Char('/') ==> pressed(app, key, today) == stays(
            AppModel { search_active: true, search: full_line(app.search.text), ..app },
        ),
        key.code == KeyCode::Esc ==> pressed(app, key, today) == stays(
            AppModel { search: blank_line(), selected_main_idx: 0, ..cleared(app) },
        ),
        key.code == KeyCode::Char('u') ==> pressed(app, key, today) == stays(
            AppModel { page: Page::TaskLists, ..cleared(app) },
        ),
        key.code == KeyCode::Char('o') ==> pressed(app, key, today) == (Step {
            app,
            effect: EffectModel::EditText(
                TextPurpose::Notes,
                help_and(help_for_notes(), app.notes_text),
            ),
        }),
        key.code == KeyCode::Char('n') ==> pressed(app, key, today) == {
            let ranked = list_items(app.data.lists, ListSortMode::Priority);
            if ranked.len() == 0 {
                stays(tells(app, "no task list available for new task"@))
            } else {
                let list_id = ranked[0].list_id;
                match settled(app.data.with_new_task(list_id, today), today) {
                    Some(data) => Step {
                        app: AppModel { data, ..app },
                        effect: EffectModel::Save(
                            AfterSave::OpenMainTask(
                                TaskKey { list_id, task_id: app.data.next_task_id },
                            ),
                        ),
                    },
                    None => stays(app),
                }
            }
        },
{
    reveal(quit);
    reveal(search_started);
    reveal(search_cleared);
    reveal(page_shown);
    reveal(notes_opened);
    reveal(main_task_created);
    reveal(task_created);
    help_is_in_front(help_for_notes(), app.notes_text);
    assert(crate::keys::notes_help() == help_for_notes());
}

/// What a key does to the line of a search: a character is typed, and another key edits the line.
pub open spec fn typed_into(line: LineModel, key: KeyPress) -> LineModel {
    match key.code {
        KeyCode::Char(c) => if key.control {
            line
        } else {
            line.inserted(c)
        },
        _ => line.edited(key.code),
    }
}

/// In the search of the main page keys are typed into its line; a key that changes the text, or
/// goes to its end, goes to the first row. `enter` ends the typing, and `esc` clears the line too.
pub proof fn keys_of_the_search(app: AppModel, key: KeyPress, today: int)
    requires
        is_bare(app),
        app.expanded_list_id is None,
        app.page == Page::Main,
        app.search_active,
    ensures
        pressed(app, key, today) == stays(
            match key.code {
                KeyCode::Esc => AppModel {
                    search_active: false,
                    search: blank_line(),
                    selected_main_idx: 0,
                    ..app
                },
                KeyCode::Enter => AppModel { search_active: false, ..app },
                _ => AppModel {
                    search: typed_into(app.search, key),
                    selected_main_idx: if (key.code is Char && !key.control) || key.code
                        == KeyCode::Backspace || key.code == KeyCode::Delete || key.code
                        == KeyCode::End {
                        0
                    } else {
                        app.selected_main_idx
                    },
                    ..app
                },
            },
        ),
{
}

/// So it is in the search of the task list page, but that going to the end of the line leaves the
/// selected row.
pub proof fn keys_of_the_search_for_lists(app: AppModel, key: KeyPress, today: int)
    requires
        is_bare(app),
        app.expanded_list_id is None,
        app.page == Page::TaskLists,
        app.list_search_active,
    ensures
        pressed(app, key, today) == stays(
            match key.code {
                KeyCode::Esc => AppModel {
                    list_search_active: false,
                    list_search: blank_line(),
                    selected_list_idx: 0,
                    ..app
                },
                KeyCode::Enter => AppModel { list_search_active: false, ..app },
                _ => AppModel {
                    list_search: typed_into(app.list_search, key),
                    selected_list_idx: if (key.code is Char && !key.control) || key.code
                        == KeyCode::Backspace || key.code == KeyCode::Delete {
                        0
                    } else {
                        app.selected_list_idx
                    },
                    ..app
                },
            },
        ),
{
}

/// The keys of the task list page: `q` quits, `u` shows the tasks, `/` begins to search, `o` hands
/// the notes to the text editor, `x` and `c` change the order and go to the first row, the arrows
/// and `j` and `k` move, `enter` opens the selected list at its first row, `n` makes a new list and
/// opens it once it is saved, and `d` and the keys that delete ask for the selected list by its
/// name.
pub proof fn keys_of_the_task_list_page(app: AppModel, key: KeyPress, today: int)
    requires
        is_bare(app),
        app.expanded_list_id is None,
        app.page == Page::TaskLists,
        !app.list_search_active,
        app.page_lists().len() <= usize::MAX,
    ensures
        key.code == KeyCode::Char('q') ==> pressed(app, key, today) == stays(
            AppModel { running: false, ..app },
        ),
        key.code == KeyCode::Char('u') ==> pressed(app, key, today) == stays(
            AppModel { page: Page::Main, ..cleared(app) },
        ),
        key.code == KeyCode::Char('/') ==> pressed(app, key, today) == stays(
            AppModel {
                list_search_active: true,
                list_search: full_line(app.list_search.text),
                ..app
            },
        ),
        key.code == KeyCode::Char('o') ==> pressed(app, key, today) == (Step {
            app,
            effect: EffectModel::EditText(
                TextPurpose::Notes,
                help_and(help_for_notes(), app.notes_text),
            ),
        }),
        key.code == KeyCode::Char('x') ==> pressed(app, key, today) == stays(
            AppModel {
                list_sort_mode: if app.list_sort_mode == ListSortMode::RemainingCount {
                    ListSortMode::Priority
                } else {
                    ListSortMode::RemainingCount
                },
                selected_list_idx: 0,
                ..app
            },
        ),
        key.code == KeyCode::Char('c') ==> pressed(app, key, today) == stays(
            AppModel {
                list_sort_reversed: !app.list_sort_reversed,
                selected_list_idx: 0,
                ..app
            },
        ),
        key.code == KeyCode::Down || key.code == KeyCode::Char('j') ==> pressed(app, key, today)
            == stays(
            AppModel {
                selected_list_idx: nearest(
                    app.selected_list_idx + 1,
                    app.page_lists().len(),
                ) as usize,
                ..cleared(app)
            },
        ),
        key.code == KeyCode::Up || key.code == KeyCode::Char('k') ==> pressed(app, key, today)
            == stays(
            AppModel {
                selected_list_idx: nearest(
                    app.selected_list_idx - 1,
                    app.page_lists().len(),
                ) as usize,
                ..cleared(app)
            },
        ),
        key.code == KeyCode::Enter ==> pressed(app, key, today) == stays(
            if app.selected_list_idx < app.page_lists().len() {
                AppModel {
                    expanded_list_id: Some(
                        app.page_lists()[app.selected_list_idx as int].list_id,
                    ),
                    selected_list_task_idx: 0,
                    ..cleared(app)
                }
            } else {
                app
            },
        ),
        key.code == KeyCode::Char('n') ==> pressed(app, key, today) == (Step {
            app: AppModel { data: app.data.with_new_list().pruned(today), ..app },
            effect: EffectModel::Save(AfterSave::OpenList(app.data.next_list_id)),
        }),
        key.code == KeyCode::Char('d') || key.code == KeyCode::Delete || key.code
            == KeyCode::Backspace ==> pressed(app, key, today) == stays(
            if app.selected_list_idx < app.page_lists().len() {
                AppModel {
                    confirm: Some(
                        ConfirmModel {
                            message: "Delete task list '"@ + app.page_lists()[
                                app.selected_list_idx as int
                            ].name + "' and all its tasks?"@,
                            action: ActionModel::DeleteList(
                                app.page_lists()[app.selected_list_idx as int].list_id,
                            ),
                        },
                    ),
                    ..app
                }
            } else {
                app
            },
        ),
{
    reveal(quit);
    reveal(page_shown);
    reveal(list_search_started);
    reveal(notes_opened);
    reveal(list_sort_toggled);
    reveal(list_order_toggled);
    reveal(list_moved);
    reveal(selected_list_opened);
    reveal(list_created);
    reveal(list_delete_asked);
    help_is_in_front(help_for_notes(), app.notes_text);
    assert(crate::keys::notes_help() == help_for_notes());
}

/// A field of a list that is being edited, with the text that it has.
pub open spec fn list_field_opened(
    app: AppModel,
    list_id: u64,
    field: ListField,
    text: Seq<char>,
) -> AppModel {
    AppModel {
        editor: Some(
            EditorModel {
                target: EditTarget::List(list_id, field),
                input: full_line(text),
                suggestion_index: 0,
            },
        ),
        ..app
    }
}

/// The other keys of an open list: `esc` closes it, `n` puts a new task into it and opens that once
/// it is saved, and `t`, `p` and `q` begin to edit its name, its priority and its color as they
/// are.
pub proof fn keys_of_an_open_list(app: AppModel, list_id: u64, key: KeyPress, today: int)
    requires
        is_bare(app),
        app.expanded_list_id == Some(list_id),
    ensures
        key.code == KeyCode::Esc ==> pressed(app, key, today) == stays(
            AppModel { expanded_list_id: None, selected_list_task_idx: 0, ..app },
        ),
        key.code == KeyCode::Char('n') ==> pressed(app, key, today) == match settled(
            app.data.with_new_task(list_id, today),
            today,
        ) {
            Some(data) => Step {
                app: AppModel { data, ..app },
                effect: EffectModel::Save(
                    AfterSave::OpenListTask(
                        TaskKey { list_id, task_id: app.data.next_task_id },
                    ),
                ),
            },
            None => stays(app),
        },
        key.code == KeyCode::Char('t') ==> pressed(app, key, today) == stays(
            match app.data.list(list_id) {
                Some(list) => list_field_opened(app, list_id, ListField::Name, list.name),
                None => app,
            },
        ),
        key.code == KeyCode::Char('p') ==> pressed(app, key, today) == stays(
            match app.data.list(list_id) {
                Some(list) => list_field_opened(
                    app,
                    list_id,
                    ListField::Priority,
                    decimal(list.priority as nat),
                ),
                None => app,
            },
        ),
        key.code == KeyCode::Char('q') ==> pressed(app, key, today) == stays(
            match app.data.list(list_id) {
                Some(list) => list_field_opened(app, list_id, ListField::Color, list.color_hex),
                None => app,
            },
        ),
{
    reveal(task_created);
    reveal(list_edit_started);
}

/// A field of a task that is being edited, with the text that it has.
pub open spec fn task_field_opened(
    app: AppModel,
    task_key: TaskKey,
    field: TaskField,
    text: Seq<char>,
) -> AppModel {
    AppModel {
        editor: Some(
            EditorModel {
                target: EditTarget::Task(task_key, field),
                input: full_line(text),
                suggestion_index: 0,
            },
        ),
        ..app
    }
}

/// An open task takes the keys.
pub open spec fn task_in_front(app: AppModel, task_key: TaskKey) -> bool {
    &&& app.multi_task_edit is None
    &&& app.confirm is None
    &&& !app.show_popup
    &&& app.editor is None
    &&& app.expanded_task_key == Some(task_key)
}

/// The keys of an open task: `esc` closes it, `a` completes it or marks it as open and saves, `t`,
/// `e`, `w`, `r` and `l` begin to edit its title, its hours, its due date and its list as they are,
/// `d` hands its description to the text editor, and `delete` asks for it by its title.
pub proof fn keys_of_an_open_task(app: AppModel, task_key: TaskKey, key: KeyPress, today: int)
    requires
        task_in_front(app, task_key),
    ensures
        key.code == KeyCode::Esc ==> pressed(app, key, today) == stays(
            AppModel { expanded_task_key: None, ..app },
        ),
        key.code == KeyCode::Char('a') ==> pressed(app, key, today) == saves(
            app,
            settled(app.data.edited_task(task_key, toggle(today)), today),
        ),
        key.code == KeyCode::Char('t') ==> pressed(app, key, today) == stays(
            match app.data.task(task_key) {
                Some(task) => task_field_opened(app, task_key, TaskField::Title, task.title),
                None => app,
            },
        ),
        key.code == KeyCode::Char('e') ==> pressed(app, key, today) == stays(
            match app.data.task(task_key) {
                Some(task) => task_field_opened(
                    app,
                    task_key,
                    TaskField::Estimated,
                    decimal(task.estimated_minutes as nat),
                ),
                None => app,
            },
        ),
        key.code == KeyCode::Char('w') ==> pressed(app, key, today) == stays(
            match app.data.task(task_key) {
                Some(task) => task_field_opened(
                    app,
                    task_key,
                    TaskField::Actual,
                    decimal(task.actual_minutes as nat),
                ),
                None => app,
            },
        ),
        key.code == KeyCode::Char('r') ==> pressed(app, key, today) == stays(
            match app.data.task(task_key) {
                Some(task) => task_field_opened(
                    app,
                    task_key,
                    TaskField::DueDate,
                    day_text(task.due_date),
                ),
                None => app,
            },
        ),
        key.code == KeyCode::Char('l') ==> pressed(app, key, today) == stays(
            match (app.data.task(task_key), app.data.list(task_key.list_id)) {
                (Some(task), Some(list)) => task_field_opened(
                    app,
                    task_key,
                    TaskField::ListName,
                    list.name,
                ),
                _ => app,
            },
        ),
        key.code == KeyCode::Char('d') ==> pressed(app, key, today) == match app.data.task(
            task_key,
        ) {
            Some(task) => Step {
                app,
                effect: EffectModel::EditText(
                    TextPurpose::Description(task_key),
                    help_and(help_for_descriptions(), task.description),
                ),
            },
            None => stays(app),
        },
        key.code == KeyCode::Delete ==> pressed(app, key, today) == stays(
            AppModel {
                confirm: Some(
                    ConfirmModel {
                        message: "Delete task '"@ + (match app.data.task(task_key) {
                            Some(task) => shown_text(task.title),
                            None => "this "@ + "task"@,
                        }) + "'?"@,
                        action: ActionModel::DeleteTask(task_key),
                    },
                ),
                ..app
            },
        ),
{
    reveal(task_toggled);
    reveal(task_edit_started);
    reveal(description_opened);
    reveal(task_delete_asked);
    if let Some(task) = app.data.task(task_key) {
        help_is_in_front(help_for_descriptions(), task.description);
    }
    assert(crate::keys::description_help() == help_for_descriptions());
}

/// A key that has no use where the program stands changes nothing.
pub proof fn other_keys_do_nothing(app: AppModel, key: KeyPress, today: int)
    ensures
        is_bare(app) && app.expanded_list_id is None && app.page == Page::Main
            && !app.search_active && (match key.code {
            KeyCode::Char(c) => !seq![
                'q',
                '/',
                'u',
                'n',
                'o',
                'x',
                'c',
                'J',
                'K',
                'j',
                'k',
                'a',
                'd',
            ].contains(c),
            KeyCode::Left | KeyCode::Right | KeyCode::Home | KeyCode::End | KeyCode::Other => true,
            _ => false,
        }) ==> pressed(app, key, today) == stays(app),
        is_bare(app) && app.expanded_list_id is None && app.page == Page::TaskLists
            && !app.list_search_active && (match key.code {
            KeyCode::Char(c) => !seq!['q', 'u', '/', 'o', 'x', 'c', 'j', 'k', 'n', 'd'].contains(c),
            KeyCode::Esc | KeyCode::Left | KeyCode::Right | KeyCode::Home | KeyCode::End
            | KeyCode::Other => true,
            _ => false,
        }) ==> pressed(app, key, today) == stays(app),
        is_bare(app) && app.expanded_list_id is Some && (match key.code {
            KeyCode::Char(c) => !seq![
                'x',
                'c',
                'J',
                'K',
                'j',
                'k',
                'a',
                'd',
                'n',
                't',
                'p',
                'q',
            ].contains(c),
            KeyCode::Backspace | KeyCode::Left | KeyCode::Right | KeyCode::Home | KeyCode::End
            | KeyCode::Other => true,
            _ => false,
        }) ==> pressed(app, key, today) == stays(app),
        (app.expanded_task_key matches Some(task_key) && task_in_front(app, task_key)) && (
        match key.code {
            KeyCode::Char(c) => !seq!['a', 't', 'd', 'e', 'w', 'r', 'l'].contains(c),
            KeyCode::Esc | KeyCode::Delete => false,
            _ => true,
        }) ==> pressed(app, key, today) == stays(app),
{
    if let KeyCode::Char(c) = key.code {
        let a = seq!['q', '/', 'u', 'n', 'o', 'x', 'c', 'J', 'K', 'j', 'k', 'a', 'd'];
        assert(a[0] == 'q' && a[1] == '/' && a[2] == 'u' && a[3] == 'n' && a[4] == 'o' && a[5]
            == 'x' && a[6] == 'c' && a[7] == 'J' && a[8] == 'K' && a[9] == 'j' && a[10] == 'k'
            && a[11] == 'a' && a[12] == 'd');
        let b = seq!['q', 'u', '/', 'o', 'x', 'c', 'j', 'k', 'n', 'd'];
        assert(b[0] == 'q' && b[1] == 'u' && b[2] == '/' && b[3] == 'o' && b[4] == 'x' && b[5]
            == 'c' && b[6] == 'j' && b[7] == 'k' && b[8] == 'n' && b[9] == 'd');
        let d = seq!['x', 'c', 'J', 'K', 'j', 'k', 'a', 'd', 'n', 't', 'p', 'q'];
        assert(d[0] == 'x' && d[1] == 'c' && d[2] == 'J' && d[3] == 'K' && d[4] == 'j' && d[5]
            == 'k' && d[6] == 'a' && d[7] == 'd' && d[8] == 'n' && d[9] == 't' && d[10] == 'p'
            && d[11] == 'q');
        let e = seq!['a', 't', 'd', 'e', 'w', 'r', 'l'];
        assert(e[0] == 'a' && e[1] == 't' && e[2] == 'd' && e[3] == 'e' && e[4] == 'w' && e[5]
            == 'r' && e[6] == 'l');
    }
}

/// Messages in front go with `enter` or `esc`, and take no other key.
pub proof fn keys_of_the_messages(app: AppModel, key: KeyPress, today: int)
    requires
        app.multi_task_edit is None,
        app.confirm is None,
        app.show_popup,
    ensures
        pressed(app, key, today) == stays(
            AppModel {
                show_popup: key.code != KeyCode::Enter && key.code != KeyCode::Esc,
                ..app
            },
        ),
{
}

/// The selected rows of the main page and of the open list are among their rows.
pub open spec fn in_rows(app: AppModel) -> AppModel {
    AppModel {
        selected_main_idx: clamped(app.selected_main_idx, app.main_items().len()),
        selected_list_task_idx: match app.expanded_list_id {
            Some(list_id) => clamped(
                app.selected_list_task_idx,
                app.items_of_list(list_id).len(),
            ),
            None => 0,
        },
        ..app
    }
}

/// Putting the selected rows among the rows, one page after the other.
proof fn rows_settle(app: AppModel)
    ensures
        app.main_in_range().list_task_in_range() == in_rows(app),
        tasks_settled(app) == in_rows(cleared(app)),
{
    reveal(AppModel::main_items);
    reveal(AppModel::items_of_list);
}

/// What is left when a task is deleted.
pub open spec fn without_the_task(app: AppModel, task_key: TaskKey, today: int) -> Step {
    let step = saves(app, settled(app.data.without_task(task_key), today));
    Step {
        app: in_rows(
            AppModel {
                expanded_task_key: if app.expanded_task_key == Some(task_key) {
                    None
                } else {
                    app.expanded_task_key
                },
                ..step.app
            },
        ),
        effect: step.effect,
    }
}

/// What is left when several tasks are deleted.
pub open spec fn without_the_tasks(app: AppModel, keys: Seq<TaskKey>, today: int) -> Step {
    let step = saves(app, settled(app.data.edited_by_keys(keys, delete_step()), today));
    Step { app: in_rows(cleared(step.app)), effect: step.effect }
}

/// What is left when a list is deleted.
pub open spec fn without_the_list(app: AppModel, list_id: u64, today: int) -> Step {
    let step = saves(app, settled(app.data.without_list(list_id), today));
    let closed = AppModel {
        expanded_list_id: if app.expanded_list_id == Some(list_id) {
            None
        } else {
            app.expanded_list_id
        },
        selected_list_task_idx: if app.expanded_list_id == Some(list_id) {
            0
        } else {
            app.selected_list_task_idx
        },
        expanded_task_key: match app.expanded_task_key {
            Some(open) => if open.list_id == list_id {
                None
            } else {
                Some(open)
            },
            None => None,
        },
        ..step.app
    };
    Step {
        app: AppModel {
            selected_list_idx: clamped(app.selected_list_idx, closed.page_lists().len()),
            selected_main_idx: clamped(app.selected_main_idx, closed.main_items().len()),
            ..closed
        },
        effect: step.effect,
    }
}

proof fn deleting_a_task_leaves_the_rest(app: AppModel, task_key: TaskKey, today: int)
    ensures
        task_deleted(app, task_key, today) == without_the_task(app, task_key, today),
{
    reveal(task_deleted);
    let step = saves(app, settled(app.data.without_task(task_key), today));
    rows_settle(
        AppModel {
            expanded_task_key: if app.expanded_task_key == Some(task_key) {
                None
            } else {
                app.expanded_task_key
            },
            ..step.app
        },
    );
}

proof fn deleting_tasks_leaves_the_rest(app: AppModel, keys: Seq<TaskKey>, today: int)
    ensures
        tasks_deleted(app, keys, today) == without_the_tasks(app, keys, today),
{
    reveal(tasks_deleted);
    let step = saves(app, settled(app.data.edited_by_keys(keys, delete_step()), today));
    rows_settle(step.app);
}

proof fn deleting_a_list_leaves_the_rest(app: AppModel, list_id: u64, today: int)
    ensures
        list_deleted(app, list_id, today) == without_the_list(app, list_id, today),
{
    reveal(list_deleted);
    reveal(AppModel::main_items);
}

/// A question is answered with `enter`, `y` or `Y`, or refused with `esc`, `n` or `N`, and is gone;
/// other keys leave it. A yes deletes what was asked for and nothing else, and saves; an open task
/// or list that is deleted is closed, and the selected rows are among the rows that are left.
pub proof fn keys_of_a_question(app: AppModel, question: ConfirmModel, key: KeyPress, today: int)
    requires
        app.multi_task_edit is None,
        app.confirm == Some(question),
    ensures
        ({
            let yes = key.code == KeyCode::Enter || key.code == KeyCode::Char('y') || key.code
                == KeyCode::Char('Y');
            let no = key.code == KeyCode::Esc || key.code == KeyCode::Char('n') || key.code
                == KeyCode::Char('N');
            let gone = AppModel { confirm: None, ..app };
            &&& no ==> pressed(app, key, today) == stays(gone)
            &&& !yes && !no ==> pressed(app, key, today) == stays(app)
            &&& yes ==> pressed(app, key, today) == match question.action {
                ActionModel::DeleteTask(task_key) => without_the_task(gone, task_key, today),
                ActionModel::DeleteTasks(keys) => without_the_tasks(gone, keys, today),
                ActionModel::DeleteList(list_id) => without_the_list(gone, list_id, today),
            }
        }),
{
    let gone = AppModel { confirm: None, ..app };
    match question.action {
        ActionModel::DeleteTask(task_key) => deleting_a_task_leaves_the_rest(
            gone,
            task_key,
            today,
        ),
        ActionModel::DeleteTasks(keys) => deleting_tasks_leaves_the_rest(gone, keys, today),
        ActionModel::DeleteList(list_id) => deleting_a_list_leaves_the_rest(gone, list_id, today),
    }
}

/// What may be typed into a field: a title takes any character up to thirty of them, hours and a
/// priority take digits, a date takes digits and `-`, a color takes hexadecimal digits and `#` up
/// to seven of them, and names take any character.
pub open spec fn may_type(target: EditTarget, c: char, len: nat) -> bool {
    let is_ten = 48 <= c as int <= 57;
    let is_six = (65 <= c as int <= 70) || (97 <= c as int <= 102);
    match target {
        EditTarget::Task(_, field) => match field {
            TaskField::Title => len < 30,
            TaskField::Estimated => is_ten,
            TaskField::Actual => is_ten,
            TaskField::DueDate => is_ten || c == '-',
            TaskField::ListName => true,
        },
        EditTarget::List(_, field) => match field {
            ListField::Name => true,
            ListField::Priority => is_ten,
            ListField::Color => (is_ten || is_six || c == '#') && len < 7,
        },
    }
}

/// A field takes the keys.
pub open spec fn field_in_front(app: AppModel, editor: EditorModel) -> bool {
    &&& app.multi_task_edit is None
    &&& app.confirm is None
    &&& !app.show_popup
    &&& app.editor == Some(editor)
}

/// While a field is edited, keys are typed into its line as far as it takes them; where a list is
/// chosen, the arrows go through the suggestions, and a key that changes the text goes back to the
/// first.
pub proof fn keys_of_a_field(app: AppModel, editor: EditorModel, key: KeyPress, today: int)
    requires
        field_in_front(app, editor),
        key.code != KeyCode::Enter,
    ensures
        ({
            let is_choice = editor.target matches EditTarget::Task(_, field) && field
                == TaskField::ListName;
            let is_name = is_choice || (editor.target matches EditTarget::List(_, field) && field
                == ListField::Name);
            let count = suggestions(app.data.lists, editor.input.text).len();
            pressed(app, key, today) == stays(
                AppModel {
                    editor: match key.code {
                        KeyCode::Esc => None,
                        KeyCode::Down => Some(
                            EditorModel {
                                suggestion_index: if !is_choice || count == 0 {
                                    editor.suggestion_index
                                } else if editor.suggestion_index + 1 < count {
                                    (editor.suggestion_index + 1) as usize
                                } else {
                                    (count - 1) as usize
                                },
                                ..editor
                            },
                        ),
                        KeyCode::Up => Some(
                            EditorModel {
                                suggestion_index: if is_choice && editor.suggestion_index > 0 {
                                    (editor.suggestion_index - 1) as usize
                                } else {
                                    editor.suggestion_index
                                },
                                ..editor
                            },
                        ),
                        KeyCode::Char(c) => Some(
                            if !key.control && may_type(
                                editor.target,
                                c,
                                editor.input.text.len(),
                            ) {
                                EditorModel {
                                    input: editor.input.inserted(c),
                                    suggestion_index: if is_name {
                                        0
                                    } else {
                                        editor.suggestion_index
                                    },
                                    ..editor
                                }
                            } else {
                                editor
                            },
                        ),
                        _ => Some(
                            EditorModel {
                                input: editor.input.edited(key.code),
                                suggestion_index: if key.code == KeyCode::Backspace || key.code
                                    == KeyCode::Delete {
                                    0
                                } else {
                                    editor.suggestion_index
                                },
                                ..editor
                            },
                        ),
                    },
                    ..app
                },
            )
        }),
{
}

/// `enter` closes a field of a task and takes over what was typed: a title that is not blank
/// without the white space around it, hours that are a number, a date that is one, else a message
/// says how it is written; and the task goes to the list that was chosen.
pub proof fn enter_takes_over_a_field_of_a_task(
    app: AppModel,
    editor: EditorModel,
    task_key: TaskKey,
    field: TaskField,
    key: KeyPress,
    today: int,
)
    requires
        field_in_front(app, editor),
        editor.target == EditTarget::Task(task_key, field),
        key.code == KeyCode::Enter,
    ensures
        ({
            let closed = AppModel { editor: None, ..app };
            let input = editor.input.text;
            let data = app.data;
            pressed(app, key, today) == match field {
                TaskField::Title => if trimmed(input).len() == 0 {
                    stays(closed)
                } else {
                    saves(
                        closed,
                        settled(data.edited_task(task_key, set_title(trimmed(input))), today),
                    )
                },
                TaskField::Estimated => match parsed_number(input, 0xFFFF_FFFF) {
                    Some(n) => saves(
                        closed,
                        settled(data.edited_task(task_key, set_estimated(n as u32)), today),
                    ),
                    None => stays(closed),
                },
                TaskField::Actual => match parsed_number(input, 0xFFFF_FFFF) {
                    Some(n) => saves(
                        closed,
                        settled(data.edited_task(task_key, set_actual(n as u32)), today),
                    ),
                    None => stays(closed),
                },
                TaskField::DueDate => match parsed_day(trimmed(input)) {
                    Some(day) => saves(
                        closed,
                        settled(data.edited_task(task_key, set_due_date(day)), today),
                    ),
                    None => stays(tells(closed, "invalid due date format; use YYYY-MM-DD"@)),
                },
                TaskField::ListName => match chosen_list(
                    data.lists,
                    input,
                    editor.suggestion_index,
                ) {
                    Some(list_id) => {
                        let step = saves(
                            closed,
                            settled(data.with_task_moved(task_key, list_id), today),
                        );
                        Step {
                            app: at_row(
                                step.app,
                                clamped(
                                    app.current_index(),
                                    step.app.current_items().len(),
                                ) as int,
                            ),
                            effect: step.effect,
                        }
                    },
                    None => stays(closed),
                },
            }
        }),
{
    reveal(field_taken);
    reveal(list_chosen);
}

/// `enter` closes a field of a list and takes over what was typed: a name that is not blank without
/// the white space around it, a priority up to 255, and a color that is one, in its one form.
pub proof fn enter_takes_over_a_field_of_a_list(
    app: AppModel,
    editor: EditorModel,
    list_id: u64,
    field: ListField,
    key: KeyPress,
    today: int,
)
    requires
        field_in_front(app, editor),
        editor.target == EditTarget::List(list_id, field),
        key.code == KeyCode::Enter,
    ensures
        ({
            let closed = AppModel { editor: None, ..app };
            let input = editor.input.text;
            let data = app.data;
            pressed(app, key, today) == match field {
                ListField::Name => if trimmed(input).len() == 0 {
                    stays(closed)
                } else {
                    saves(
                        closed,
                        settled(data.edited_list(list_id, set_name(trimmed(input))), today),
                    )
                },
                ListField::Priority => match parsed_number(input, 255) {
                    Some(n) => saves(
                        closed,
                        settled(data.edited_list(list_id, set_priority(n as u8)), today),
                    ),
                    None => stays(closed),
                },
                ListField::Color => if parsed_color(input) is None {
                    stays(closed)
                } else {
                    saves(
                        closed,
                        settled(
                            data.edited_list(list_id, set_color(normalized_color(input))),
                            today,
                        ),
                    )
                },
            }
        }),
{
    reveal(field_taken);
}

/// In the menu for several tasks `r` asks for a date and `l` for a list, each in an empty line, `d`
/// asks whether to delete them, by their number, `esc` leaves it, and other keys do nothing.
pub proof fn keys_of_the_menu(app: AppModel, state: MultiModel, key: KeyPress, today: int)
    requires
        app.multi_task_edit == Some(state),
        state.mode == MultiTaskEditMode::Menu,
    ensures
        pressed(app, key, today) == stays(
            if key.code == KeyCode::Esc {
                AppModel { multi_task_edit: None, ..app }
            } else if key.code == KeyCode::Char('r') {
                AppModel {
                    multi_task_edit: Some(
                        MultiModel {
                            mode: MultiTaskEditMode::DueDate,
                            input: blank_line(),
                            ..state
                        },
                    ),
                    ..app
                }
            } else if key.code == KeyCode::Char('l') {
                AppModel {
                    multi_task_edit: Some(
                        MultiModel {
                            mode: MultiTaskEditMode::ListName,
                            input: blank_line(),
                            suggestion_index: 0,
                            ..state
                        },
                    ),
                    ..app
                }
            } else if key.code == KeyCode::Char('d') {
                AppModel {
                    multi_task_edit: None,
                    confirm: Some(
                        ConfirmModel {
                            message: "Delete "@ + decimal(state.keys.len()) + " selected tasks?"@,
                            action: ActionModel::DeleteTasks(state.keys),
                        },
                    ),
                    ..app
                }
            } else {
                app
            },
        ),
{
    reveal(multi_delete_asked);
}

/// While a date for several tasks is typed, the line takes digits and `-`; `esc` goes back to the
/// menu; `enter` gives all of them the date and saves, or where it is none, says how it is written.
pub proof fn keys_of_the_date_for_several(
    app: AppModel,
    state: MultiModel,
    key: KeyPress,
    today: int,
)
    requires
        app.multi_task_edit == Some(state),
        state.mode == MultiTaskEditMode::DueDate,
    ensures
        pressed(app, key, today) == match key.code {
            KeyCode::Esc => stays(
                AppModel {
                    multi_task_edit: Some(MultiModel { mode: MultiTaskEditMode::Menu, ..state }),
                    ..app
                },
            ),
            KeyCode::Enter => match parsed_day(trimmed(state.input.text)) {
                Some(day) => {
                    let step = saves(
                        app,
                        settled(app.data.edited_by_keys(state.keys, due_date_step(day)), today),
                    );
                    Step { app: in_rows(cleared(step.app)), effect: step.effect }
                },
                None => stays(tells(app, "invalid due date format; use YYYY-MM-DD"@)),
            },
            KeyCode::Char(c) => stays(
                AppModel {
                    multi_task_edit: Some(
                        if (48 <= c as int <= 57) || c == '-' {
                            MultiModel { input: state.input.inserted(c), ..state }
                        } else {
                            state
                        },
                    ),
                    ..app
                },
            ),
            _ => stays(
                AppModel {
                    multi_task_edit: Some(
                        MultiModel { input: state.input.edited(key.code), ..state },
                    ),
                    ..app
                },
            ),
        },
{
    reveal(multi_date_taken);
    if let Some(day) = parsed_day(trimmed(state.input.text)) {
        let after = settled(app.data.edited_by_keys(state.keys, due_date_step(day)), today);
        rows_settle(saves(app, after).app);
    }
}

/// While a list for several tasks is typed, the arrows go through the suggestions and a key that
/// changes the text goes back to the first; `esc` goes back to the menu.
pub proof fn keys_of_the_list_for_several(
    app: AppModel,
    state: MultiModel,
    key: KeyPress,
    today: int,
)
    requires
        app.multi_task_edit == Some(state),
        state.mode == MultiTaskEditMode::ListName,
        key.code != KeyCode::Enter,
    ensures
        ({
            let count = suggestions(app.data.lists, state.input.text).len();
            pressed(app, key, today) == stays(
                AppModel {
                    multi_task_edit: Some(
                        match key.code {
                            KeyCode::Esc => MultiModel { mode: MultiTaskEditMode::Menu, ..state },
                            KeyCode::Up => MultiModel {
                                suggestion_index: if state.suggestion_index > 0 {
                                    (state.suggestion_index - 1) as usize
                                } else {
                                    0
                                },
                                ..state
                            },
                            KeyCode::Down => MultiModel {
                                suggestion_index: if count == 0 {
                                    state.suggestion_index
                                } else if state.suggestion_index + 1 < count {
                                    (state.suggestion_index + 1) as usize
                                } else {
                                    (count - 1) as usize
                                },
                                ..state
                            },
                            KeyCode::Char(c) => if key.control {
                                state
                            } else {
                                MultiModel {
                                    input: state.input.inserted(c),
                                    suggestion_index: 0,
                                    ..state
                                }
                            },
                            _ => MultiModel {
                                input: state.input.edited(key.code),
                                suggestion_index: if key.code == KeyCode::Backspace || key.code
                                    == KeyCode::Delete {
                                    0
                                } else {
                                    state.suggestion_index
                                },
                                ..state
                            },
                        },
                    ),
                    ..app
                },
            )
        }),
{
}

/// `enter` moves all of several tasks to the list that was chosen, and saves; where none was,
/// nothing changes.
pub proof fn enter_moves_several(app: AppModel, state: MultiModel, key: KeyPress, today: int)
    requires
        app.multi_task_edit == Some(state),
        state.mode == MultiTaskEditMode::ListName,
        key.code == KeyCode::Enter,
    ensures
        pressed(app, key, today) == match chosen_list(
            app.data.lists,
            state.input.text,
            state.suggestion_index,
        ) {
            Some(list_id) => {
                let step = saves(
                    app,
                    settled(app.data.edited_by_keys(state.keys, move_step(list_id)), today),
                );
                Step { app: in_rows(cleared(step.app)), effect: step.effect }
            },
            None => stays(app),
        },
{
    reveal(multi_list_taken);
    if let Some(list_id) = chosen_list(app.data.lists, state.input.text, state.suggestion_index) {
        let after = settled(app.data.edited_by_keys(state.keys, move_step(list_id)), today);
        rows_settle(saves(app, after).app);
    }
}

/// A key is refused just where it would select rows from one that is not there any more, or where
/// it would make a task or a list and there is no number left.
pub proof fn only_these_keys_are_refused(app: AppModel, key: KeyPress)
    ensures
        ({
            let selects = selects_by(key, 1) || selects_by(key, -1);
            let items = app.current_items();
            let is_behind = app.task_selection_anchor matches Some(anchor) && items.len() > 0
                && anchor >= items.len();
            let makes = key.code == KeyCode::Char('n');
            let ranked = list_items(app.data.lists, ListSortMode::Priority);
            let target_is_there = match app.expanded_list_id {
                Some(list_id) => app.data.list(list_id) is Some,
                None => ranked.len() > 0,
            };
            accepts(app, key) <==> !(rows_in_front(app) && selects && is_behind) && !(rows_in_front(
                app,
            ) && makes && target_is_there && app.data.next_task_id == u64::MAX) && !(is_bare(app)
                && app.expanded_list_id is None && app.page == Page::TaskLists
                && !app.list_search_active && makes && app.data.next_list_id == u64::MAX)
        }),
{
}

/// Once the data are saved, a task that was made is opened with no rows selected together, and a
/// list that was made is opened at its first row, and selected where it is shown. Where they could
/// not be saved, a message says what failed and why, and nothing else changes.
pub proof fn after_the_data_are_saved(
    app: AppModel,
    key: TaskKey,
    list_id: u64,
    error: Seq<char>,
    i: int,
)
    ensures
        saved(app, AfterSave::Report, None) == app,
        saved(app, AfterSave::Report, Some(error)) == tells(app, "save error: "@ + error),
        saved(app, AfterSave::OpenListTask(key), None) == (AppModel {
            expanded_task_key: Some(key),
            selected_list_task_idx: 0,
            ..cleared(app)
        }),
        saved(app, AfterSave::OpenListTask(key), Some(error)) == tells(
            app,
            "failed to create task: "@ + error,
        ),
        saved(app, AfterSave::OpenMainTask(key), None) == (AppModel {
            expanded_task_key: Some(key),
            selected_main_idx: clamped(app.selected_main_idx, app.main_items().len()),
            ..cleared(app)
        }),
        saved(app, AfterSave::OpenMainTask(key), Some(error)) == tells(
            app,
            "failed to create task: "@ + error,
        ),
        saved(app, AfterSave::OpenList(list_id), Some(error)) == tells(
            app,
            "failed to create task list: "@ + error,
        ),
        0 <= i < app.page_lists().len() && app.page_lists()[i].list_id == list_id && (forall|k:
            int|
            0 <= k < i ==> (#[trigger] app.page_lists()[k]).list_id != list_id) ==> saved(
            app,
            AfterSave::OpenList(list_id),
            None,
        ) == (AppModel {
            expanded_list_id: Some(list_id),
            selected_list_task_idx: 0,
            selected_list_idx: i as usize,
            ..app
        }),
        (forall|k: int|
            0 <= k < app.page_lists().len() ==> (#[trigger] app.page_lists()[k]).list_id
                != list_id) ==> saved(app, AfterSave::OpenList(list_id), None) == (AppModel {
            expanded_list_id: Some(list_id),
            selected_list_task_idx: 0,
            ..app
        }),
{
    reveal(AppModel::main_items);
    let items = app.page_lists();
    let p = has_item_id(list_id);
    if 0 <= i < items.len() && items[i].list_id == list_id && (forall|k: int|
        0 <= k < i ==> (#[trigger] items[k]).list_id != list_id) {
        assert(is_first_where(items, p, i));
        first_where_is(items, p, i);
    }
    if forall|k: int| 0 <= k < items.len() ==> (#[trigger] items[k]).list_id != list_id {
        crate::seqs::first_where_is_none(items, p);
    }
}

/// A text that comes back from the text editor, without its help, is saved as the notes or as the
/// description of the task; where it could not be opened, a message says why. Notes that are saved
/// are those shown then; where they could not be, a message says why and they stay as they were.
pub proof fn after_a_text_comes_back(
    app: AppModel,
    key: TaskKey,
    text: Seq<char>,
    error: Seq<char>,
    purpose: TextPurpose,
    today: int,
)
    ensures
        text_edited(app, TextPurpose::Notes, Ok(text), today) == (Step {
            app,
            effect: EffectModel::WriteNotes(without_help(text)),
        }),
        text_edited(app, TextPurpose::Description(key), Ok(text), today) == saves(
            app,
            settled(app.data.edited_task(key, set_description(without_help(text))), today),
        ),
        text_edited(app, purpose, Err(error), today) == stays(
            tells(app, "failed to open vim: "@ + error),
        ),
        notes_written(app, text, None) == (AppModel { notes_text: text, ..app }),
        notes_written(app, text, Some(error)) == tells(app, "failed to save notes: "@ + error),
{
}

} // verus!
