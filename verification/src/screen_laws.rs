//! What is shown of the tasks, the lists and the state, told by their fields.

use vstd::prelude::*;
use vstd::seq_lib::*;

use crate::color::parsed_color;
use crate::data::DataModel;
use crate::date::day_text;
use crate::items::{list_items, suggestions};
use crate::labels::{fitted, padded_left, shown_text};
use crate::panels::{
    choices, color_of_list, confirm_lines, is_field_frame, is_task_target, list_lines, list_name_of,
    list_page_rows, lists_title, main_title, multi_lines, notes_shown, open_list_title, popup_lines,
    priority_rows, selected_task_lines, shown_index, side_rows, target_label, task_lines,
    FieldFrame,
};
use crate::preview::preview_of;
use crate::rows::{
    grouped, laid, place_of, selected_place, task_rows, task_stands_in_its_row, RowKind, RowModel,
};
use crate::screen::{
    controls, cursor_place, is_searching, search_line, search_title, ScreenLineModel,
};
use crate::search_laws::{
    completed_among, completed_among_front, each_list_has_one_row, open_and_completed_make_up_all,
    shows_list,
};
use crate::seqs::filter_has;
use crate::sorting::views;
use crate::state::{
    clamped, is_list_found, AppModel, EditTarget, EditorModel, ListField, MultiModel,
    MultiTaskEditMode, Page, TaskField,
};
use crate::task::{
    ListItemModel, ListModel, ListSortMode, TaskItemModel, TaskKey, TaskModel, TaskSortMode,
};
use crate::text::{decimal, signed_decimal, trimmed};

verus! {

/// How many tasks are completed.
pub open spec fn completed_tasks(list: ListModel) -> nat {
    list.tasks.filter(|task: TaskModel| task.completed).len()
}

/// How many tasks are open.
pub open spec fn open_tasks(list: ListModel) -> nat {
    list.tasks.filter(|task: TaskModel| !task.completed).len()
}

proof fn completed_tasks_are_counted(tasks: Seq<TaskModel>)
    ensures
        tasks.filter(|task: TaskModel| task.completed).len() == completed_among(
            tasks,
            tasks.len() as int,
        ),
        tasks.filter(|task: TaskModel| !task.completed).len() + completed_among(
            tasks,
            tasks.len() as int,
        ) == tasks.len(),
    decreases tasks.len(),
{
    reveal(Seq::filter);
    if tasks.len() > 0 {
        let rest = tasks.drop_last();
        completed_tasks_are_counted(rest);
        completed_among_front(tasks, rest, rest.len() as int);
    }
}

proof fn a_row_has_its_list(lists: Seq<ListModel>, sort_mode: ListSortMode, item: ListItemModel) -> (i:
    int)
    requires
        list_items(lists, sort_mode).contains(item),
    ensures
        0 <= i < lists.len(),
        shows_list(item, lists[i]),
        item.total_items == lists[i].tasks.len(),
        item.remaining_items == open_tasks(lists[i]),
        item.total_items - item.remaining_items == completed_tasks(lists[i]),
        open_tasks(lists[i]) + completed_tasks(lists[i]) == lists[i].tasks.len(),
{
    each_list_has_one_row(lists, sort_mode, 0, item);
    let i = choose|k: int| 0 <= k < lists.len() && shows_list(item, #[trigger] lists[k]);
    completed_tasks_are_counted(lists[i].tasks);
    i
}

/// Each row of the task list page tells of a list how many of its tasks are open, how many are
/// completed, and how many there are, which is both together, in the color of the list.
pub proof fn a_row_of_a_list_counts_its_tasks(app: AppModel, k: int) -> (i: int)
    requires
        0 <= k < app.page_lists().len(),
    ensures
        0 <= i < app.data.lists.len(),
        ({
            let list = app.data.lists[i];
            &&& app.page_lists()[k].list_id == list.id
            &&& list_page_rows(app.page_lists())[k] == ScreenLineModel::Colored(
                fitted(list.name, 24) + " | "@ + decimal(open_tasks(list))
                    + " to-do | Completed: "@ + decimal(completed_tasks(list)) + "/"@ + decimal(
                    list.tasks.len(),
                ),
                parsed_color(list.color_hex),
            )
            &&& open_tasks(list) + completed_tasks(list) == list.tasks.len()
        }),
{
    reveal(AppModel::page_lists);
    let item = app.page_lists()[k];
    let all = list_items(app.data.lists, app.list_sort_mode);
    let turned = if app.list_sort_reversed {
        all.reverse()
    } else {
        all
    };
    let found = is_list_found(app.list_search.text);
    assert(turned.filter(found).contains(item));
    filter_has(turned, found, item);
    let at = choose|at: int| 0 <= at < turned.len() && turned[at] == item;
    if app.list_sort_reversed {
        assert(all[all.len() - 1 - at] == item);
    }
    assert(all.contains(item));
    a_row_has_its_list(app.data.lists, app.list_sort_mode, item)
}

/// Each row of the lists by priority tells its place, how many tasks of the list are completed, and
/// how many there are.
pub proof fn a_ranked_row_counts_its_tasks(data: DataModel, r: int) -> (i: int)
    requires
        0 <= r < list_items(data.lists, ListSortMode::Priority).len(),
    ensures
        0 <= i < data.lists.len(),
        ({
            let ranked = list_items(data.lists, ListSortMode::Priority);
            let list = data.lists[i];
            &&& ranked[r].list_id == list.id
            &&& priority_rows(ranked).len() == ranked.len()
            &&& priority_rows(ranked)[r] == ScreenLineModel::Colored(
                padded_left(decimal((r + 1) as nat), 2) + ". "@ + fitted(list.name, 16) + " | "@
                    + decimal(completed_tasks(list)) + "/"@ + decimal(list.tasks.len()),
                parsed_color(list.color_hex),
            )
        }),
{
    let ranked = list_items(data.lists, ListSortMode::Priority);
    assert(ranked.contains(ranked[r]));
    a_row_has_its_list(data.lists, ListSortMode::Priority, ranked[r])
}

/// Where there are no lists, a line says so.
pub proof fn no_lists_are_told_of(app: AppModel)
    ensures
        app.page_lists().len() == 0 ==> list_page_rows(app.page_lists()) == seq![
            ScreenLineModel::Plain("No task lists available"@),
        ],
        app.page_lists().len() > 0 ==> list_page_rows(app.page_lists()).len()
            == app.page_lists().len(),
        priority_rows(Seq::empty()) == seq![ScreenLineModel::Plain("No task lists"@)],
{
}

/// Beside the lists stand the titles of the tasks of the selected one, below how many of them are
/// completed.
pub proof fn the_selected_list_is_shown(app: AppModel, j: int)
    ensures
        app.selected_list_idx >= app.page_lists().len() ==> side_rows(app) == seq![
            ScreenLineModel::Plain("No list selected"@),
        ],
        app.selected_list_idx < app.page_lists().len() ==> match app.data.list(
            app.page_lists()[app.selected_list_idx as int].list_id,
        ) {
            Some(list) => {
                &&& side_rows(app)[0] == ScreenLineModel::Plain(
                    decimal(completed_tasks(list)) + "/"@ + decimal(list.tasks.len())
                        + " completed"@,
                )
                &&& list.tasks.len() == 0 ==> side_rows(app).len() == 2 && side_rows(app)[1]
                    == ScreenLineModel::Plain("No tasks in list"@)
                &&& list.tasks.len() > 0 ==> side_rows(app).len() == 1 + list.tasks.len()
                &&& 0 <= j < list.tasks.len() ==> side_rows(app)[1 + j] == ScreenLineModel::Colored(
                    shown_text(list.tasks[j].title),
                    parsed_color(list.color_hex),
                )
            },
            None => side_rows(app) == seq![ScreenLineModel::Plain("No list selected"@)],
        },
{
}

/// What is shown of a task in its row: whether it is completed, its title, its list, and its hours,
/// those that are left among them, in the color of the list; and of its description, where that is
/// searched, the part that was found.
pub open spec fn shows_item(
    row: RowModel,
    item: TaskItemModel,
    marked: Seq<TaskKey>,
    search: Option<Seq<char>>,
) -> bool {
    row == (RowModel::Task {
        color: parsed_color(item.list_color_hex),
        is_marked: marked.contains(item.key),
        head: (if item.completed {
            "[x]"@
        } else {
            "[ ]"@
        }) + " "@ + fitted(shown_text(item.title), 22) + " | "@ + fitted(item.list_name, 16)
            + " | "@,
        preview: match search {
            Some(query) => preview_of(item.description, query),
            None => None,
        },
        tail: "est:"@ + padded_left(decimal(item.estimated_minutes as nat), 4) + "h actual:"@
            + padded_left(decimal(item.actual_minutes as nat), 4) + "h left:"@ + padded_left(
            signed_decimal(item.time_left),
            4,
        ) + "h"@,
    })
}

/// By time left each task has its row, in order; where there is none, a note says so.
pub proof fn rows_by_time_left_show_each_task(
    items: Seq<TaskItemModel>,
    marked: Seq<TaskKey>,
    search: Option<Seq<char>>,
    today: int,
    i: int,
)
    ensures
        ({
            let rows = task_rows(items, TaskSortMode::TimeLeft, marked, search, today);
            &&& items.len() == 0 ==> rows == seq![RowModel::Note("No matching tasks"@)]
            &&& items.len() > 0 ==> rows.len() == items.len()
            &&& 0 <= i < items.len() ==> shows_item(rows[i], items[i], marked, search)
        }),
{
}

/// One of the tasks is due on a day.
pub open spec fn has_due(items: Seq<TaskItemModel>, day: int) -> bool {
    exists|i: int| 0 <= i < items.len() && (#[trigger] items[i]).due_date == day
}

/// The rows of tasks follow their order, and each day that has a row is today or one on which a
/// task is due.
pub open spec fn follows_items(kinds: Seq<RowKind>, items: Seq<TaskItemModel>, today: int) -> bool {
    &&& forall|r: int, s: int|
        0 <= r < s < kinds.len() ==> match (#[trigger] kinds[r], #[trigger] kinds[s]) {
            (RowKind::Item(i), RowKind::Item(j)) => i < j,
            _ => true,
        }
    &&& forall|r: int|
        0 <= r < kinds.len() ==> match #[trigger] kinds[r] {
            RowKind::Item(i) => 0 <= i < items.len(),
            RowKind::Day(day) => day == today || has_due(items, day),
        }
}

proof fn laid_follows_items(items: Seq<TaskItemModel>, n: int, today: int)
    requires
        0 <= n <= items.len(),
    ensures
        follows_items(laid(items, n, today).kinds, items, today),
        forall|r: int|
            0 <= r < laid(items, n, today).kinds.len() ==> match #[trigger] laid(
                items,
                n,
                today,
            ).kinds[r] {
                RowKind::Item(i) => i < n,
                RowKind::Day(_) => true,
            },
    decreases n,
{
    if n > 0 {
        laid_follows_items(items, n - 1, today);
        assert(has_due(items, items[n - 1].due_date));
    }
}

/// By due date each task has one row, in order, below the row of a day; the row of a day shows it,
/// and says which one is today.
pub proof fn rows_by_due_date_show_each_task(
    items: Seq<TaskItemModel>,
    marked: Seq<TaskKey>,
    search: Option<Seq<char>>,
    today: int,
    i: int,
    r: int,
)
    ensures
        ({
            let kinds = grouped(items, today);
            let rows = task_rows(items, TaskSortMode::DueDate, marked, search, today);
            let place = place_of(items, TaskSortMode::DueDate, i, today);
            &&& rows.len() == kinds.len()
            &&& follows_items(kinds, items, today)
            &&& 0 <= i < items.len() ==> 0 <= place < rows.len() && kinds[place] == RowKind::Item(i)
                && shows_item(rows[place], items[i], marked, search)
            &&& 0 <= r < rows.len() ==> match kinds[r] {
                RowKind::Item(j) => 0 <= j < items.len() && shows_item(
                    rows[r],
                    items[j],
                    marked,
                    search,
                ),
                RowKind::Day(day) => rows[r] == (RowModel::Header {
                    label: if day == today {
                        day_text(day) + " -- TODAY"@
                    } else {
                        day_text(day)
                    },
                    is_today: day == today,
                }),
            }
        }),
{
    laid_follows_items(items, items.len() as int, today);
    if 0 <= i < items.len() {
        task_stands_in_its_row(items, i, today);
    }
}

/// The row that is selected is that of the selected task, or of the last where there are fewer.
pub proof fn the_selected_row_is_that_of_the_task(
    items: Seq<TaskItemModel>,
    marked: Seq<TaskKey>,
    search: Option<Seq<char>>,
    sort_mode: TaskSortMode,
    selected: usize,
    today: int,
)
    requires
        items.len() <= usize::MAX,
    ensures
        items.len() == 0 ==> selected_place(items, sort_mode, selected, today) is None,
        items.len() > 0 ==> {
            let rows = task_rows(items, sort_mode, marked, search, today);
            let i = if selected < items.len() {
                selected as int
            } else {
                items.len() - 1
            };
            selected_place(items, sort_mode, selected, today) matches Some(place) && 0 <= place
                < rows.len() && shows_item(rows[place], items[i], marked, search)
        },
{
    if items.len() > 0 {
        task_stands_in_its_row(items, clamped(selected, items.len()) as int, today);
    }
}

/// The row that is shown as selected is that of the open list, unless a task is open in front of
/// it.
pub proof fn the_open_list_has_its_row(app: AppModel)
    ensures
        shown_index(app) == (if app.expanded_list_id is Some && app.expanded_task_key is None {
            app.selected_list_task_idx
        } else {
            app.selected_main_idx
        }),
{
}

/// An open task shows each of its fields and the name of its list.
pub proof fn an_open_task_shows_its_fields(task: TaskModel, list_name: Seq<char>)
    ensures
        ({
            let lines = task_lines(task, list_name);
            let field = |label: Seq<char>, value: Seq<char>|
                ScreenLineModel::Labeled { label, value, in_list_color: false };
            &&& lines.len() == 8
            &&& lines[0] == field("Title [t]: "@, shown_text(task.title))
            &&& lines[1] == (ScreenLineModel::Labeled {
                label: "Task List [l]: "@,
                value: list_name,
                in_list_color: true,
            })
            &&& lines[2] == field(
                "Estimated [e]: "@,
                decimal(task.estimated_minutes as nat) + " hours"@,
            )
            &&& lines[3] == field("Actual [w]: "@, decimal(task.actual_minutes as nat) + " hours"@)
            &&& lines[4] == field("Due Date [r]: "@, day_text(task.due_date))
            &&& lines[5] == field(
                "Completed [a]: "@,
                if !task.completed {
                    "No"@
                } else if let Some(day) = task.completed_on {
                    "Yes ("@ + day_text(day) + ")"@
                } else {
                    "Yes"@
                },
            )
            &&& lines[6] == ScreenLineModel::Plain(""@)
            &&& lines[7] == field("Description [d]:\n"@, shown_text(task.description))
        }),
{
}

/// An open list shows each of its fields, how many tasks it has and how many of them are open.
pub proof fn an_open_list_shows_its_fields(list: ListModel)
    ensures
        ({
            let lines = list_lines(list);
            let field = |label: Seq<char>, value: Seq<char>|
                ScreenLineModel::Labeled { label, value, in_list_color: false };
            &&& lines.len() == 4
            &&& lines[0] == (ScreenLineModel::Labeled {
                label: "Task List: "@,
                value: list.name,
                in_list_color: true,
            })
            &&& lines[1] == field("Priority: "@, decimal(list.priority as nat))
            &&& lines[2] == field("Color: "@, list.color_hex)
            &&& lines[3] == field(
                "Items: "@,
                "total "@ + decimal(list.tasks.len()) + " | remaining "@ + decimal(
                    open_tasks(list),
                ),
            )
        }),
{
    open_and_completed_make_up_all(list.tasks);
    completed_tasks_are_counted(list.tasks);
}

/// The name and the color of a list are found by its number; where there is none, it is unknown.
pub proof fn a_list_is_shown_by_its_number(data: DataModel, list_id: u64)
    ensures
        data.list(list_id) matches Some(list) ==> list_name_of(data, list_id) == list.name
            && color_of_list(data, list_id) == parsed_color(list.color_hex),
        data.list(list_id) is None ==> list_name_of(data, list_id) == "Unknown"@ && color_of_list(
            data,
            list_id,
        ) is None,
{
}

/// Messages are shown one by one, then how to close them; a question is shown with how to answer.
pub proof fn messages_and_questions_are_shown(
    messages: Seq<Seq<char>>,
    message: Seq<char>,
    i: int,
)
    ensures
        popup_lines(messages).len() == messages.len() + 2,
        0 <= i < messages.len() ==> popup_lines(messages)[i] == ScreenLineModel::Plain(
            "- "@ + messages[i],
        ),
        popup_lines(messages)[messages.len() as int] == ScreenLineModel::Plain(""@),
        popup_lines(messages)[messages.len() as int + 1] == ScreenLineModel::Plain(
            "Press Enter or Esc to close this popup."@,
        ),
        confirm_lines(message) == seq![
            ScreenLineModel::Plain(message),
            ScreenLineModel::Plain(""@),
            ScreenLineModel::Plain("Press Enter/Y to delete, Esc/N to cancel."@),
        ],
{
}

/// Names to choose from are shown in their order up to a limit, and the chosen one is marked.
pub proof fn names_are_shown_up_to_a_limit(
    names: Seq<Seq<char>>,
    chosen: usize,
    limit: nat,
    i: int,
)
    ensures
        choices(names, chosen, limit as int).len() <= limit,
        choices(names, chosen, limit as int).len() <= names.len(),
        choices(names, chosen, limit as int).len() == limit || choices(
            names,
            chosen,
            limit as int,
        ).len() == names.len(),
        0 <= i < choices(names, chosen, limit as int).len() ==> choices(names, chosen, limit as int)[i]
            == ScreenLineModel::Choice(names[i], i == chosen),
{
}

/// Of several tasks those that are there are shown, one by one, each with its day, its title and
/// the color of its list.
pub proof fn several_tasks_are_shown_one_by_one(data: DataModel, keys: Seq<TaskKey>, key: TaskKey)
    ensures
        selected_task_lines(data, Seq::empty()).len() == 0,
        data.task(key) is None ==> selected_task_lines(data, keys.push(key)) == selected_task_lines(
            data,
            keys,
        ),
        data.task(key) matches Some(task) ==> selected_task_lines(data, keys.push(key))
            == selected_task_lines(data, keys).push(
            ScreenLineModel::Dated {
                day: day_text(task.due_date) + " | "@,
                title: shown_text(task.title),
                color: match data.list(key.list_id) {
                    Some(list) => parsed_color(list.color_hex),
                    None => None,
                },
            },
        ),
{
    assert(keys.push(key).drop_last() == keys);
}

/// Above several tasks that are edited stands what is typed for all of them, with the first five
/// suggestions where a list is chosen, and how many tasks they are.
pub proof fn what_is_typed_for_several_is_shown(data: DataModel, state: MultiModel)
    ensures
        multi_lines(data, state) == (match state.mode {
            MultiTaskEditMode::Menu => Seq::<ScreenLineModel>::empty(),
            MultiTaskEditMode::DueDate => seq![
                ScreenLineModel::Plain("Set due date for all selected tasks:"@),
                ScreenLineModel::Plain(state.input.text),
                ScreenLineModel::Plain(""@),
            ],
            MultiTaskEditMode::ListName => seq![
                ScreenLineModel::Plain("Move all selected tasks to list:"@),
                ScreenLineModel::Plain(state.input.text),
                ScreenLineModel::Plain(""@),
                ScreenLineModel::Plain("Suggestions:"@),
            ] + choices(suggestions(data.lists, state.input.text), state.suggestion_index, 5),
        }) + seq![ScreenLineModel::Plain("Selected tasks: "@ + decimal(state.keys.len()))]
            + selected_task_lines(data, state.keys),
{
}

/// Notes are shown as they are, and blank ones by a word.
pub proof fn notes_are_shown(notes: Seq<char>)
    ensures
        trimmed(notes).len() == 0 ==> notes_shown(notes) == "(empty)"@,
        trimmed(notes).len() > 0 ==> notes_shown(notes) == notes,
{
}

/// The titles say by what is sorted, and which way.
pub proof fn titles_say_the_order(app: AppModel, reversed: bool)
    ensures
        main_title(TaskSortMode::DueDate)
            == "Tasks (due date) -- [a] mark completed, [del/bckspc] delete task, [n] new task, [enter] open/edit task"@,
        main_title(TaskSortMode::TimeLeft)
            == "Tasks (time remaining) -- [a] mark completed, [del/bckspc] delete task, [n] new task, [enter] open/edit task"@,
        open_list_title(app) == (if app.main_sort_mode == TaskSortMode::DueDate {
            if app.show_completed_in_due_mode {
                "Due Date - (showing completed)"@
            } else {
                "Due Date - (completed hidden)"@
            }
        } else if app.time_left_reversed {
            "Time Remaining - (asc.)"@
        } else {
            "Time Remaining - (desc.)"@
        }),
        lists_title(ListSortMode::RemainingCount, reversed) == "Task Lists (remaining tasks "@ + (
        if reversed {
            "(asc.)"@
        } else {
            "(desc.)"@
        }) + ") -- [del/bckspc] delete task list, [n] new task list, [enter] open/edit list"@,
        lists_title(ListSortMode::Priority, reversed) == "Task Lists (priority "@ + (if reversed {
            "(asc.)"@
        } else {
            "(desc.)"@
        }) + ") -- [del/bckspc] delete task list, [n] new task list, [enter] open/edit list"@,
{
}

/// The search bar is that of the page, and its title says what the keys do next.
pub proof fn the_search_bar_is_that_of_the_page(app: AppModel, text: Seq<char>)
    ensures
        app.page == Page::Main ==> search_line(app) == app.search && is_searching(app)
            == app.search_active,
        app.page == Page::TaskLists ==> search_line(app) == app.list_search && is_searching(app)
            == app.list_search_active,
        search_title(text, true) == "Search -- [enter] apply search, [esc] clear"@,
        text.len() == 0 ==> search_title(text, false) == "Search -- [/] start search"@,
        text.len() > 0 ==> search_title(text, false)
            == "Search -- [/] edit search, [esc] clear search"@,
{
}

/// The cursor stands within the frame of a line, at its place in the text as far as there is room.
pub proof fn the_cursor_stands_within_the_frame(x: u16, y: u16, width: u16, len: nat, cursor: nat)
    requires
        x + width <= u16::MAX,
        y < u16::MAX,
        cursor <= len,
    ensures
        ({
            let place = cursor_place(x as int, y as int, width as int, len as int, cursor as int);
            &&& place.1 == y + 1
            &&& width >= 3 ==> x < place.0 < x + width - 1
            &&& cursor + 3 <= width ==> place.0 == x + 1 + cursor
            &&& cursor + 3 > width && width >= 3 ==> place.0 == x + width - 2
            &&& width < 3 ==> place.0 == x + 1 || x == u16::MAX
        }),
{
}

/// Each field has its label.
pub proof fn fields_have_their_labels(key: TaskKey, list_id: u64)
    ensures
        target_label(EditTarget::Task(key, TaskField::Title)) == "Title"@,
        target_label(EditTarget::Task(key, TaskField::Estimated)) == "Estimated"@,
        target_label(EditTarget::Task(key, TaskField::Actual)) == "Actual"@,
        target_label(EditTarget::Task(key, TaskField::DueDate)) == "Due Date"@,
        target_label(EditTarget::Task(key, TaskField::ListName)) == "Task List"@,
        target_label(EditTarget::List(list_id, ListField::Name)) == "Task List"@,
        target_label(EditTarget::List(list_id, ListField::Priority)) == "Priority"@,
        target_label(EditTarget::List(list_id, ListField::Color)) == "Color"@,
{
}

/// A field that is edited is shown with its label, its text and its cursor, and where a list is
/// chosen with all names that are suggested.
pub proof fn a_field_is_shown_as_it_is_typed(
    frame: FieldFrame,
    lists: Seq<ListModel>,
    editor: EditorModel,
)
    ensures
        ({
            let is_choice = editor.target matches EditTarget::Task(_, field) && field
                == TaskField::ListName;
            let names = suggestions(lists, editor.input.text);
            is_field_frame(frame, lists, editor) <==> {
                &&& frame.title@ == target_label(editor.target)
                &&& frame.text@ == editor.input.text
                &&& frame.cursor == editor.input.cursor
                &&& is_choice <==> frame.choices is Some
                &&& frame.choices matches Some(lines) ==> views(lines@) == Seq::new(
                    names.len(),
                    |i: int| ScreenLineModel::Choice(names[i], i == editor.suggestion_index),
                )
            }
        }),
{
    let names = suggestions(lists, editor.input.text);
    assert(choices(names, editor.suggestion_index, names.len() as int) == Seq::new(
        names.len(),
        |i: int| ScreenLineModel::Choice(names[i], i == editor.suggestion_index),
    ));
}

/// A field belongs to a task or to a list.
pub proof fn a_field_is_of_a_task_or_a_list(
    key: TaskKey,
    task_field: TaskField,
    list_id: u64,
    list_field: ListField,
)
    ensures
        is_task_target(EditTarget::Task(key, task_field)),
        !is_task_target(EditTarget::List(list_id, list_field)),
{
}

/// The line of keys is that of what is in front, and says there which keys it takes.
pub proof fn the_keys_of_what_is_in_front_are_shown(app: AppModel)
    ensures
        app.multi_task_edit matches Some(state) ==> controls(app) == (
            "MULTI"@,
            if state.mode == MultiTaskEditMode::Menu {
                "[r] due date, [l] move to list, [d] delete selected, [esc] cancel"@
            } else if state.mode == MultiTaskEditMode::DueDate {
                "type YYYY-MM-DD, [enter] save, [esc] cancel"@
            } else {
                "type filter, [↑/↓] choose, [enter] save, [esc] cancel"@
            },
        ),
        app.multi_task_edit is None ==> {
            &&& app.confirm is Some ==> controls(app) == (
                "CONFIRM"@,
                "[enter/y] yes, [esc/n] no"@,
            )
            &&& app.confirm is None && app.show_popup ==> controls(app) == (
                "POPUP"@,
                "[enter/esc] close"@,
            )
            &&& app.confirm is None && !app.show_popup ==> {
                &&& app.editor matches Some(editor) ==> controls(app) == (
                    "EDIT"@,
                    if editor.target matches EditTarget::Task(_, field) && field
                        == TaskField::ListName {
                        "type filter, [↑/↓] choose, [enter] save, [esc] cancel"@
                    } else {
                        "type value, [enter] save, [esc] cancel"@
                    },
                )
                &&& app.editor is None && app.expanded_task_key is Some ==> controls(app) == (
                    "TASK"@,
                    "[esc] back, [delete] delete task"@,
                )
                &&& app.editor is None && app.expanded_task_key is None && app.expanded_list_id is Some
                    ==> controls(app) == (
                    "LIST+"@,
                    "[esc] back, [enter] task, [a] done, [d] delete task, [n] new, [t] name, [p] prio, [q] color, [x] sort, "@
                        + (if app.main_sort_mode == TaskSortMode::TimeLeft {
                        "[c] reverse"@
                    } else {
                        "[c] hide/show done"@
                    }),
                )
            }
        },
{
}

/// On a page the line of keys says what `c` and `x` do next.
pub proof fn the_keys_of_the_page_are_shown(app: AppModel)
    requires
        app.multi_task_edit is None,
        app.confirm is None,
        !app.show_popup,
        app.editor is None,
        app.expanded_task_key is None,
        app.expanded_list_id is None,
    ensures
        app.page == Page::Main && app.main_sort_mode == TaskSortMode::DueDate ==> controls(app) == (
            "MAIN"@,
            "[c] "@ + (if app.show_completed_in_due_mode {
                "hide completed"@
            } else {
                "show completed"@
            }) + ", [x] "@ + "sort by time remaining"@
                + ", [⬇/⬆(j/k)] navigate, [q] quit app"@,
        ),
        app.page == Page::Main && app.main_sort_mode == TaskSortMode::TimeLeft ==> controls(app)
            == (
            "MAIN"@,
            "[c] "@ + (if app.time_left_reversed {
                "asc."@
            } else {
                "desc."@
            }) + ", [x] "@ + "sort by due date"@ + ", [⬇/⬆(j/k)] navigate, [q] quit app"@,
        ),
        app.page == Page::TaskLists ==> controls(app) == (
            "LISTS"@,
            "[c] "@ + (if app.list_sort_reversed {
                "asc."@
            } else {
                "desc."@
            }) + ", [x] "@ + (if app.list_sort_mode == ListSortMode::Priority {
                "sort by remaining tasks"@
            } else {
                "sort by priority"@
            }) + ", [⬇/⬆(j/k)] navigate, [q] quit app"@,
        ),
{
}

/// A number below zero has a minus in front of its digits.
pub proof fn minus_stands_in_front(n: nat)
    ensures
        signed_decimal(n as int) == decimal(n),
        n > 0 ==> signed_decimal(-n) == seq!['-'] + decimal(n),
{
}

} // verus!
