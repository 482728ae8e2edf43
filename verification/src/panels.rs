//! What the pages, the panels beside them and the frames in front of them hold.

use vstd::prelude::*;
use vstd::string::*;

use crate::color::{parse_hex_color, parsed_color};
use crate::data::{AppData, DataModel};
use crate::date::{day_text, Date};
use crate::items::{list_items, open_count, suggestions};
use crate::labels::{empty_if_blank, fit_column, fitted, pad_left, padded_left, shown_text};
use crate::rows::{build_task_rows, color_value, row_index, selected_place, task_rows, TaskRows};
use crate::screen::{
    list_field_label, list_label, task_field_label, task_label, ScreenLine, ScreenLineModel,
};
use crate::seqs::views_push;
use crate::sorting::views;
use crate::state::{
    clamp_index, clamped, App, AppModel, EditTarget, EditorModel, MultiModel, MultiTaskEditMode,
    TaskField,
};
use crate::task::{
    ListItemModel, ListModel, ListSortMode, Task, TaskKey, TaskList, TaskListViewItem, TaskModel,
    TaskSortMode,
};
use crate::text::{decimal, to_decimal, trim, trimmed};

verus! {

/// The title of the rows of the main page.
pub open spec fn main_title(sort_mode: TaskSortMode) -> Seq<char> {
    match sort_mode {
        TaskSortMode::DueDate =>
            "Tasks (due date) -- [a] mark completed, [del/bckspc] delete task, [n] new task, [enter] open/edit task"@,
        TaskSortMode::TimeLeft =>
            "Tasks (time remaining) -- [a] mark completed, [del/bckspc] delete task, [n] new task, [enter] open/edit task"@,
    }
}

/// The row that is selected among tasks: that of the open list while no task is open, else that of
/// the main page.
pub open spec fn shown_index(app: AppModel) -> usize {
    if app.expanded_list_id is Some && app.expanded_task_key is None {
        app.selected_list_task_idx
    } else {
        app.selected_main_idx
    }
}

/// The title of the rows of an open list.
pub open spec fn open_list_title(app: AppModel) -> Seq<char> {
    match app.main_sort_mode {
        TaskSortMode::DueDate => if app.show_completed_in_due_mode {
            "Due Date - (showing completed)"@
        } else {
            "Due Date - (completed hidden)"@
        },
        TaskSortMode::TimeLeft => if app.time_left_reversed {
            "Time Remaining - (asc.)"@
        } else {
            "Time Remaining - (desc.)"@
        },
    }
}

/// The title of the rows of the task list page.
pub open spec fn lists_title(sort_mode: ListSortMode, reversed: bool) -> Seq<char> {
    (match sort_mode {
        ListSortMode::RemainingCount => "Task Lists (remaining tasks "@,
        ListSortMode::Priority => "Task Lists (priority "@,
    }) + (if reversed {
        "(asc.)"@
    } else {
        "(desc.)"@
    }) + ") -- [del/bckspc] delete task list, [n] new task list, [enter] open/edit list"@
}

/// How many tasks are completed.
pub open spec fn done_count(item: ListItemModel) -> nat {
    if item.remaining_items < item.total_items {
        (item.total_items - item.remaining_items) as nat
    } else {
        0
    }
}

/// The row of a list on the task list page.
pub open spec fn list_row(item: ListItemModel) -> ScreenLineModel {
    ScreenLineModel::Colored(
        fitted(item.name, 24) + " | "@ + decimal(item.remaining_items) + " to-do | Completed: "@
            + decimal(done_count(item)) + "/"@ + decimal(item.total_items),
        parsed_color(item.color_hex),
    )
}

/// The rows of the task list page.
pub open spec fn list_page_rows(items: Seq<ListItemModel>) -> Seq<ScreenLineModel> {
    if items.len() == 0 {
        seq![ScreenLineModel::Plain("No task lists available"@)]
    } else {
        items.map_values(|item: ListItemModel| list_row(item))
    }
}

/// The row of a list in the panel of priorities.
pub open spec fn ranked_row(item: ListItemModel, rank: nat) -> ScreenLineModel {
    ScreenLineModel::Colored(
        padded_left(decimal(rank), 2) + ". "@ + fitted(item.name, 16) + " | "@ + decimal(
            done_count(item),
        ) + "/"@ + decimal(item.total_items),
        parsed_color(item.color_hex),
    )
}

/// The panel of priorities: the lists by their priority, numbered.
pub open spec fn priority_rows(ranked: Seq<ListItemModel>) -> Seq<ScreenLineModel> {
    if ranked.len() == 0 {
        seq![ScreenLineModel::Plain("No task lists"@)]
    } else {
        Seq::new(ranked.len(), |i: int| ranked_row(ranked[i], (i + 1) as nat))
    }
}

/// The panel of notes.
pub open spec fn notes_shown(notes: Seq<char>) -> Seq<char> {
    if trimmed(notes).len() == 0 {
        "(empty)"@
    } else {
        notes
    }
}

pub open spec fn completed_in(tasks: Seq<TaskModel>) -> nat {
    tasks.filter(|task: TaskModel| task.completed).len()
}

/// The panel of the tasks of the selected list.
pub open spec fn side_rows(app: AppModel) -> Seq<ScreenLineModel> {
    let items = app.page_lists();
    let none = seq![ScreenLineModel::Plain("No list selected"@)];
    if app.selected_list_idx < items.len() {
        match app.data.list(items[app.selected_list_idx as int].list_id) {
            Some(list) => seq![
                ScreenLineModel::Plain(
                    decimal(completed_in(list.tasks)) + "/"@ + decimal(list.tasks.len())
                        + " completed"@,
                ),
            ] + (if list.tasks.len() == 0 {
                seq![ScreenLineModel::Plain("No tasks in list"@)]
            } else {
                title_rows(list)
            }),
            None => none,
        }
    } else {
        none
    }
}

pub open spec fn title_rows(list: ListModel) -> Seq<ScreenLineModel> {
    list.tasks.map_values(
        |task: TaskModel|
            ScreenLineModel::Colored(shown_text(task.title), parsed_color(list.color_hex)),
    )
}

/// The lines of the frame of messages.
pub open spec fn popup_lines(messages: Seq<Seq<char>>) -> Seq<ScreenLineModel> {
    messages.map_values(|message: Seq<char>| ScreenLineModel::Plain("- "@ + message)).push(
        ScreenLineModel::Plain(""@),
    ).push(ScreenLineModel::Plain("Press Enter or Esc to close this popup."@))
}

/// The lines of the frame of a question.
pub open spec fn confirm_lines(message: Seq<char>) -> Seq<ScreenLineModel> {
    seq![
        ScreenLineModel::Plain(message),
        ScreenLineModel::Plain(""@),
        ScreenLineModel::Plain("Press Enter/Y to delete, Esc/N to cancel."@),
    ]
}

/// Names to choose from, the first `limit` of them.
pub open spec fn choices(names: Seq<Seq<char>>, chosen: usize, limit: int) -> Seq<ScreenLineModel> {
    let count = if names.len() < limit {
        names.len()
    } else {
        limit as nat
    };
    Seq::new(count, |i: int| ScreenLineModel::Choice(names[i], i == chosen))
}

/// What is asked of several tasks.
pub open spec fn multi_prompt(lists: Seq<ListModel>, state: MultiModel) -> Seq<ScreenLineModel> {
    match state.mode {
        MultiTaskEditMode::Menu => Seq::empty(),
        MultiTaskEditMode::DueDate => seq![
            ScreenLineModel::Plain("Set due date for all selected tasks:"@),
            ScreenLineModel::Plain(state.input.text),
            ScreenLineModel::Plain(""@),
        ],
        MultiTaskEditMode::ListName => seq![
            ScreenLineModel::Plain("Move all selected tasks to list:"@),
            ScreenLineModel::Plain(state.input.text),
            ScreenLineModel::Plain(""@),
            ScreenLineModel::Plain("Suggestions:"@),
        ] + choices(suggestions(lists, state.input.text), state.suggestion_index, 5),
    }
}

pub open spec fn color_of_list(data: DataModel, list_id: u64) -> Option<(int, int, int)> {
    match data.list(list_id) {
        Some(list) => parsed_color(list.color_hex),
        None => None,
    }
}

/// The tasks that are selected, as far as they are still there.
pub open spec fn selected_task_lines(data: DataModel, keys: Seq<TaskKey>) -> Seq<ScreenLineModel>
    decreases keys.len(),
{
    if keys.len() == 0 {
        Seq::empty()
    } else {
        let before = selected_task_lines(data, keys.drop_last());
        match data.task(keys.last()) {
            Some(task) => before.push(
                ScreenLineModel::Dated {
                    day: day_text(task.due_date) + " | "@,
                    title: shown_text(task.title),
                    color: color_of_list(data, keys.last().list_id),
                },
            ),
            None => before,
        }
    }
}

/// The lines of the frame in which several tasks are edited.
pub open spec fn multi_lines(data: DataModel, state: MultiModel) -> Seq<ScreenLineModel> {
    multi_prompt(data.lists, state) + (seq![
        ScreenLineModel::Plain("Selected tasks: "@ + decimal(state.keys.len())),
    ] + selected_task_lines(data, state.keys))
}

/// Whether and when a task was completed.
pub open spec fn completion_text(task: TaskModel) -> Seq<char> {
    if task.completed {
        match task.completed_on {
            Some(day) => "Yes ("@ + day_text(day) + ")"@,
            None => "Yes"@,
        }
    } else {
        "No"@
    }
}

pub open spec fn labeled(label: Seq<char>, value: Seq<char>, in_list_color: bool) -> ScreenLineModel {
    ScreenLineModel::Labeled { label, value, in_list_color }
}

/// The lines of an open task.
pub open spec fn task_lines(task: TaskModel, list_name: Seq<char>) -> Seq<ScreenLineModel> {
    seq![
        labeled("Title [t]: "@, shown_text(task.title), false),
        labeled("Task List [l]: "@, list_name, true),
        labeled("Estimated [e]: "@, decimal(task.estimated_minutes as nat) + " hours"@, false),
        labeled("Actual [w]: "@, decimal(task.actual_minutes as nat) + " hours"@, false),
        labeled("Due Date [r]: "@, day_text(task.due_date), false),
        labeled("Completed [a]: "@, completion_text(task), false),
        ScreenLineModel::Plain(""@),
        labeled("Description [d]:\n"@, shown_text(task.description), false),
    ]
}

/// The lines of an open list.
pub open spec fn list_lines(list: ListModel) -> Seq<ScreenLineModel> {
    seq![
        labeled("Task List: "@, list.name, true),
        labeled("Priority: "@, decimal(list.priority as nat), false),
        labeled("Color: "@, list.color_hex, false),
        labeled(
            "Items: "@,
            "total "@ + decimal(list.tasks.len()) + " | remaining "@ + decimal(
                open_count(list.tasks),
            ),
            false,
        ),
    ]
}

/// The name of the list of a task.
pub open spec fn list_name_of(data: DataModel, list_id: u64) -> Seq<char> {
    match data.list(list_id) {
        Some(list) => list.name,
        None => "Unknown"@,
    }
}

/// A field that is being edited, its line, and the names to choose from.
#[derive(Debug)]
pub struct FieldFrame {
    pub title: &'static str,
    pub text: String,
    pub cursor: usize,
    pub choices: Option<Vec<ScreenLine>>,
}

/// The field that is edited is one of a task.
pub open spec fn is_task_target(target: EditTarget) -> bool {
    match target {
        EditTarget::Task(_, _) => true,
        EditTarget::List(_, _) => false,
    }
}

pub open spec fn target_label(target: EditTarget) -> Seq<char> {
    match target {
        EditTarget::Task(_, field) => task_label(field),
        EditTarget::List(_, field) => list_label(field),
    }
}

/// What the frame of a field holds.
pub open spec fn is_field_frame(
    frame: FieldFrame,
    lists: Seq<ListModel>,
    editor: EditorModel,
) -> bool {
    &&& frame.title@ == target_label(editor.target)
    &&& frame.text@ == editor.input.text
    &&& frame.cursor as int == editor.input.cursor
    &&& match frame.choices {
        Some(lines) => crate::editing::is_list_choice(editor.target) && views(lines@) == choices(
            suggestions(lists, editor.input.text),
            editor.suggestion_index,
            suggestions(lists, editor.input.text).len() as int,
        ),
        None => !crate::editing::is_list_choice(editor.target),
    }
}

/// The main page.
#[derive(Debug)]
pub struct MainPage {
    pub title: &'static str,
    pub rows: TaskRows,
}

/// The task list page.
#[derive(Debug)]
pub struct ListPage {
    pub title: String,
    pub rows: Vec<ScreenLine>,
    pub selected: Option<usize>,
    pub side: Vec<ScreenLine>,
}

/// The frame of an open task.
#[derive(Debug)]
pub struct TaskFrame {
    pub color: Option<(u8, u8, u8)>,
    pub lines: Vec<ScreenLine>,
    pub field: Option<FieldFrame>,
}

/// The frame of an open list.
#[derive(Debug)]
pub struct ListFrame {
    pub color: Option<(u8, u8, u8)>,
    pub lines: Vec<ScreenLine>,
    pub title: &'static str,
    pub rows: TaskRows,
    pub field: Option<FieldFrame>,
}

/// The frame in which several tasks are edited, with the length of the line that is typed in and
/// where the cursor is there.
#[derive(Debug)]
pub struct MultiFrame {
    pub lines: Vec<ScreenLine>,
    pub line: Option<(usize, usize)>,
}

fn add_line(lines: &mut Vec<ScreenLine>, line: ScreenLine)
    ensures
        views(final(lines)@) == views(old(lines)@).push(line@),
{
    proof {
        views_push(lines@, line);
    }
    lines.push(line);
}

fn plain(text: &str) -> (res: ScreenLine)
    ensures
        res@ == ScreenLineModel::Plain(text@),
{
    ScreenLine::Plain(text.to_string())
}

fn make_labeled(label: &str, value: &str, in_list_color: bool) -> (res: ScreenLine)
    ensures
        res@ == labeled(label@, value@, in_list_color),
{
    ScreenLine::Labeled { label: label.to_string(), value: value.to_string(), in_list_color }
}

fn count_done(item: &TaskListViewItem) -> (res: usize)
    ensures
        res == done_count(item@),
{
    if item.remaining_items < item.total_items {
        item.total_items - item.remaining_items
    } else {
        0
    }
}

fn make_list_row(item: &TaskListViewItem) -> (res: ScreenLine)
    ensures
        res@ == list_row(item@),
{
    let text = fit_column(item.name.as_str(), 24).concat(" | ").concat(
        to_decimal(item.remaining_items as u64).as_str(),
    ).concat(" to-do | Completed: ").concat(to_decimal(count_done(item) as u64).as_str()).concat(
        "/",
    ).concat(to_decimal(item.total_items as u64).as_str());
    ScreenLine::Colored(text, parse_hex_color(item.color_hex.as_str()))
}

fn make_list_rows(items: &Vec<TaskListViewItem>) -> (res: Vec<ScreenLine>)
    ensures
        views(res@) == list_page_rows(views(items@)),
{
    let ghost all = views(items@);
    let ghost row_of = |item: ListItemModel| list_row(item);
    let mut rows: Vec<ScreenLine> = Vec::new();
    if items.len() == 0 {
        add_line(&mut rows, plain("No task lists available"));
        assert(views(rows@) == list_page_rows(all));
        return rows;
    }
    let mut i: usize = 0;
    while i < items.len()
        invariant
            i <= items@.len(),
            all == views(items@),
            row_of == (|item: ListItemModel| list_row(item)),
            views(rows@) == all.map_values(row_of).take(i as int),
        decreases items.len() - i,
    {
        let row = make_list_row(&items[i]);
        proof {
            assert(all[i as int] == items@[i as int]@);
            assert(all.map_values(row_of).take(i as int).push(row@) == all.map_values(row_of).take(
                i + 1,
            ));
        }
        add_line(&mut rows, row);
        i += 1;
    }
    assert(all.map_values(row_of).take(i as int) == all.map_values(row_of));
    rows
}

fn make_ranked_row(item: &TaskListViewItem, rank: u64) -> (res: ScreenLine)
    ensures
        res@ == ranked_row(item@, rank as nat),
{
    let text = pad_left(to_decimal(rank).as_str(), 2).concat(". ").concat(
        fit_column(item.name.as_str(), 16).as_str(),
    ).concat(" | ").concat(to_decimal(count_done(item) as u64).as_str()).concat("/").concat(
        to_decimal(item.total_items as u64).as_str(),
    );
    ScreenLine::Colored(text, parse_hex_color(item.color_hex.as_str()))
}

fn count_completed(tasks: &Vec<Task>) -> (res: usize)
    ensures
        res == completed_in(views(tasks@)),
{
    let ghost all = views(tasks@);
    let ghost p = |task: TaskModel| task.completed;
    let mut res: usize = 0;
    let mut i: usize = 0;
    assert(all.take(0).filter(p).len() == 0) by {
        reveal(Seq::filter);
    }
    while i < tasks.len()
        invariant
            i <= tasks@.len(),
            all == views(tasks@),
            p == (|task: TaskModel| task.completed),
            res <= i,
            res == all.take(i as int).filter(p).len(),
        decreases tasks.len() - i,
    {
        proof {
            crate::seqs::filter_push(all.take(i as int), p, all[i as int]);
            assert(all.take(i as int).push(all[i as int]) == all.take(i + 1));
            assert(all[i as int] == tasks@[i as int]@);
        }
        if tasks[i].completed {
            res += 1;
        }
        i += 1;
    }
    assert(all.take(i as int) == all);
    res
}

fn add_title_rows(list: &TaskList, rows: &mut Vec<ScreenLine>)
    ensures
        views(final(rows)@) == views(old(rows)@) + title_rows(list@),
{
    let ghost before = views(rows@);
    let ghost all = title_rows(list@);
    let mut i: usize = 0;
    assert(before + all.take(0) == before);
    while i < list.tasks.len()
        invariant
            i <= list.tasks@.len(),
            all == title_rows(list@),
            views(rows@) == before + all.take(i as int),
        decreases list.tasks.len() - i,
    {
        let title = empty_if_blank(list.tasks[i].title.as_str());
        let row = ScreenLine::Colored(title, parse_hex_color(list.color_hex.as_str()));
        proof {
            assert(list@.tasks[i as int] == list.tasks@[i as int]@);
            assert(row@ == all[i as int]);
            assert((before + all.take(i as int)).push(row@) == before + all.take(i + 1));
        }
        add_line(rows, row);
        i += 1;
    }
    assert(all.take(i as int) == all);
}

/// Names to choose from, the first `limit` of them.
fn add_choices(names: &Vec<String>, chosen: usize, limit: usize, lines: &mut Vec<ScreenLine>)
    ensures
        views(final(lines)@) == views(old(lines)@) + choices(views(names@), chosen, limit as int),
{
    let ghost before = views(lines@);
    let ghost all = choices(views(names@), chosen, limit as int);
    let mut i: usize = 0;
    assert(before + all.take(0) == before);
    while i < names.len() && i < limit
        invariant
            i <= names@.len(),
            i <= limit,
            all == choices(views(names@), chosen, limit as int),
            views(lines@) == before + all.take(i as int),
        decreases names.len() - i,
    {
        let line = ScreenLine::Choice(names[i].clone(), i == chosen);
        proof {
            assert(views(names@)[i as int] == names@[i as int]@);
            assert(line@ == all[i as int]);
            assert((before + all.take(i as int)).push(line@) == before + all.take(i + 1));
        }
        add_line(lines, line);
        i += 1;
    }
    assert(all.take(i as int) == all);
}

impl AppData {
    fn list_color(&self, list_id: u64) -> (res: Option<(u8, u8, u8)>)
        ensures
            color_value(res) == color_of_list(self@, list_id),
    {
        match self.get_list(list_id) {
            Some(list) => parse_hex_color(list.color_hex.as_str()),
            None => None,
        }
    }

    /// The panel of priorities.
    pub fn priority_panel(&self) -> (res: Vec<ScreenLine>)
        ensures
            views(res@) == priority_rows(list_items(self@.lists, ListSortMode::Priority)),
    {
        let ranked = self.task_list_items(ListSortMode::Priority);
        let ghost all = views(ranked@);
        let ghost rows_of = Seq::new(all.len(), |i: int| ranked_row(all[i], (i + 1) as nat));
        let mut rows: Vec<ScreenLine> = Vec::new();
        if ranked.len() == 0 {
            add_line(&mut rows, plain("No task lists"));
            assert(views(rows@) == priority_rows(all));
            return rows;
        }
        let mut i: usize = 0;
        while i < ranked.len()
            invariant
                i <= ranked@.len(),
                all == views(ranked@),
                rows_of == Seq::new(all.len(), |i: int| ranked_row(all[i], (i + 1) as nat)),
                views(rows@) == rows_of.take(i as int),
            decreases ranked.len() - i,
        {
            let row = make_ranked_row(&ranked[i], i as u64 + 1);
            proof {
                assert(all[i as int] == ranked@[i as int]@);
                assert(rows_of.take(i as int).push(row@) == rows_of.take(i + 1));
            }
            add_line(&mut rows, row);
            i += 1;
        }
        assert(rows_of.take(i as int) == rows_of);
        rows
    }

    fn add_selected_tasks(&self, keys: &Vec<TaskKey>, lines: &mut Vec<ScreenLine>)
        ensures
            views(final(lines)@) == views(old(lines)@) + selected_task_lines(self@, keys@),
    {
        let ghost before = views(lines@);
        let mut i: usize = 0;
        assert(before + selected_task_lines(self@, keys@.take(0)) == before);
        while i < keys.len()
            invariant
                i <= keys@.len(),
                views(lines@) == before + selected_task_lines(self@, keys@.take(i as int)),
            decreases keys.len() - i,
        {
            let key = keys[i];
            let ghost told = selected_task_lines(self@, keys@.take(i as int));
            proof {
                assert(keys@.take(i + 1).drop_last() == keys@.take(i as int));
                assert(keys@.take(i + 1).last() == key);
            }
            if let Some(task) = self.get_task(key) {
                let line = ScreenLine::Dated {
                    day: task.due_date.to_text().concat(" | "),
                    title: empty_if_blank(task.title.as_str()),
                    color: self.list_color(key.list_id),
                };
                add_line(lines, line);
                assert(before + told.push(line@) == (before + told).push(line@));
            }
            i += 1;
        }
        assert(keys@.take(i as int) == keys@);
    }
}

fn completion(task: &Task) -> (res: String)
    ensures
        res@ == completion_text(task@),
{
    if task.completed {
        match task.completed_on {
            Some(day) => "Yes (".to_string().concat(day.to_text().as_str()).concat(")"),
            None => "Yes".to_string(),
        }
    } else {
        "No".to_string()
    }
}

fn make_task_lines(task: &Task, list_name: &str) -> (res: Vec<ScreenLine>)
    ensures
        views(res@) == task_lines(task@, list_name@),
{
    let title = empty_if_blank(task.title.as_str());
    let estimated = to_decimal(task.estimated_minutes as u64).concat(" hours");
    let actual = to_decimal(task.actual_minutes as u64).concat(" hours");
    let description = empty_if_blank(task.description.as_str());
    let mut lines: Vec<ScreenLine> = Vec::new();
    add_line(&mut lines, make_labeled("Title [t]: ", title.as_str(), false));
    add_line(&mut lines, make_labeled("Task List [l]: ", list_name, true));
    add_line(&mut lines, make_labeled("Estimated [e]: ", estimated.as_str(), false));
    add_line(&mut lines, make_labeled("Actual [w]: ", actual.as_str(), false));
    add_line(
        &mut lines,
        make_labeled("Due Date [r]: ", task.due_date.to_text().as_str(), false),
    );
    add_line(&mut lines, make_labeled("Completed [a]: ", completion(task).as_str(), false));
    add_line(&mut lines, plain(""));
    add_line(&mut lines, make_labeled("Description [d]:\n", description.as_str(), false));
    assert(views(lines@) == task_lines(task@, list_name@));
    lines
}

fn make_list_lines(list: &TaskList) -> (res: Vec<ScreenLine>)
    ensures
        views(res@) == list_lines(list@),
{
    let items = "total ".to_string().concat(to_decimal(list.tasks.len() as u64).as_str()).concat(
        " | remaining ",
    ).concat(to_decimal(crate::items::count_open(&list.tasks) as u64).as_str());
    let mut lines: Vec<ScreenLine> = Vec::new();
    assert(views(list.tasks@).len() == list.tasks@.len());
    add_line(&mut lines, make_labeled("Task List: ", list.name.as_str(), true));
    add_line(
        &mut lines,
        make_labeled("Priority: ", to_decimal(list.priority as u64).as_str(), false),
    );
    add_line(&mut lines, make_labeled("Color: ", list.color_hex.as_str(), false));
    add_line(&mut lines, make_labeled("Items: ", items.as_str(), false));
    assert(views(lines@) == list_lines(list@));
    lines
}

impl App {
    /// The row that is selected among tasks.
    fn shown_row(&self) -> (res: usize)
        ensures
            res == shown_index(self@),
    {
        if self.expanded_list_id.is_some() && self.expanded_task_key.is_none() {
            self.selected_list_task_idx
        } else {
            self.selected_main_idx
        }
    }

    /// What the main page holds.
    pub fn main_page(&self, today: Date) -> (res: MainPage)
        ensures
            res.title@ == main_title(self@.main_sort_mode),
            views(res.rows.rows@) == task_rows(
                self@.main_items(),
                self@.main_sort_mode,
                self@.multi_selected_tasks,
                Some(self@.search.text),
                today@,
            ),
            row_index(res.rows.selected) == selected_place(
                self@.main_items(),
                self@.main_sort_mode,
                shown_index(self@),
                today@,
            ),
    {
        let items = self.main_items();
        let search = self.search.text();
        let rows = build_task_rows(
            &items,
            self.main_sort_mode,
            &self.multi_selected_tasks,
            Some(search.as_str()),
            self.shown_row(),
            today,
        );
        let title = match self.main_sort_mode {
            TaskSortMode::DueDate =>
                "Tasks (due date) -- [a] mark completed, [del/bckspc] delete task, [n] new task, [enter] open/edit task",
            TaskSortMode::TimeLeft =>
                "Tasks (time remaining) -- [a] mark completed, [del/bckspc] delete task, [n] new task, [enter] open/edit task",
        };
        MainPage { title, rows }
    }

    /// The panel of notes.
    pub fn notes_panel(&self) -> (res: String)
        ensures
            res@ == notes_shown(self@.notes_text),
    {
        if trim(self.notes_text.as_str()).as_str().is_empty() {
            "(empty)".to_string()
        } else {
            self.notes_text.clone()
        }
    }

    fn side_panel(&self, items: &Vec<TaskListViewItem>) -> (res: Vec<ScreenLine>)
        requires
            views(items@) == self@.page_lists(),
        ensures
            views(res@) == side_rows(self@),
    {
        assert(views(items@).len() == items@.len());
        let mut rows: Vec<ScreenLine> = Vec::new();
        if self.selected_list_idx < items.len() {
            assert(views(items@)[self.selected_list_idx as int]
                == items@[self.selected_list_idx as int]@);
            if let Some(list) = self.data.get_list(items[self.selected_list_idx].list_id) {
                assert(views(list.tasks@).len() == list.tasks@.len());
                let head = to_decimal(count_completed(&list.tasks) as u64).concat("/").concat(
                    to_decimal(list.tasks.len() as u64).as_str(),
                ).concat(" completed");
                add_line(&mut rows, plain(head.as_str()));
                if list.tasks.len() == 0 {
                    add_line(&mut rows, plain("No tasks in list"));
                } else {
                    add_title_rows(list, &mut rows);
                }
                assert(views(rows@) == side_rows(self@));
                return rows;
            }
        }
        add_line(&mut rows, plain("No list selected"));
        assert(views(rows@) == side_rows(self@));
        rows
    }

    /// What the task list page holds.
    pub fn list_page(&self) -> (res: ListPage)
        ensures
            res.title@ == lists_title(self@.list_sort_mode, self@.list_sort_reversed),
            views(res.rows@) == list_page_rows(self@.page_lists()),
            row_index(res.selected) == (if self@.page_lists().len() == 0 {
                None
            } else {
                Some(clamped(self@.selected_list_idx, self@.page_lists().len()) as int)
            }),
            views(res.side@) == side_rows(self@),
    {
        let items = self.filtered_task_list_items();
        assert(views(items@).len() == items@.len());
        let lead = match self.list_sort_mode {
            ListSortMode::RemainingCount => "Task Lists (remaining tasks ",
            ListSortMode::Priority => "Task Lists (priority ",
        };
        let order = if self.list_sort_reversed {
            "(asc.)"
        } else {
            "(desc.)"
        };
        let selected = if items.len() == 0 {
            None
        } else {
            Some(clamp_index(self.selected_list_idx, items.len()))
        };
        ListPage {
            title: lead.to_string().concat(order).concat(
                ") -- [del/bckspc] delete task list, [n] new task list, [enter] open/edit list",
            ),
            rows: make_list_rows(&items),
            selected,
            side: self.side_panel(&items),
        }
    }

    /// The lines of the frame of messages.
    pub fn popup(&self) -> (res: Vec<ScreenLine>)
        ensures
            views(res@) == popup_lines(self@.popup_messages),
    {
        let ghost all = self@.popup_messages.map_values(
            |message: Seq<char>| ScreenLineModel::Plain("- "@ + message),
        );
        let mut lines: Vec<ScreenLine> = Vec::new();
        let mut i: usize = 0;
        while i < self.popup_messages.len()
            invariant
                i <= self.popup_messages@.len(),
                all == self@.popup_messages.map_values(
                    |message: Seq<char>| ScreenLineModel::Plain("- "@ + message),
                ),
                views(lines@) == all.take(i as int),
            decreases self.popup_messages.len() - i,
        {
            let line = ScreenLine::Plain(
                "- ".to_string().concat(self.popup_messages[i].as_str()),
            );
            proof {
                assert(views(self.popup_messages@)[i as int] == self.popup_messages@[i as int]@);
                assert(all.take(i as int).push(line@) == all.take(i + 1));
            }
            add_line(&mut lines, line);
            i += 1;
        }
        assert(all.take(i as int) == all);
        add_line(&mut lines, plain(""));
        add_line(&mut lines, plain("Press Enter or Esc to close this popup."));
        lines
    }

    /// The lines of the frame of the question that is asked.
    pub fn question(&self) -> (res: Option<Vec<ScreenLine>>)
        ensures
            match self@.confirm {
                Some(question) => res matches Some(lines) && views(lines@) == confirm_lines(
                    question.message,
                ),
                None => res is None,
            },
    {
        match &self.confirm {
            Some(question) => {
                let mut lines: Vec<ScreenLine> = Vec::new();
                add_line(&mut lines, plain(question.message.as_str()));
                add_line(&mut lines, plain(""));
                add_line(&mut lines, plain("Press Enter/Y to delete, Esc/N to cancel."));
                assert(views(lines@) == confirm_lines(question@.message));
                Some(lines)
            },
            None => None,
        }
    }

    /// The frame in which several tasks are edited.
    pub fn multi_frame(&self) -> (res: Option<MultiFrame>)
        ensures
            match self@.multi_task_edit {
                Some(state) => {
                    &&& res matches Some(frame)
                    &&& views(frame.lines@) == multi_lines(self@.data, state)
                    &&& match frame.line {
                        Some((len, cursor)) => state.mode != MultiTaskEditMode::Menu && len
                            == state.input.text.len() && cursor == state.input.cursor,
                        None => state.mode == MultiTaskEditMode::Menu,
                    }
                },
                None => res is None,
            },
    {
        match &self.multi_task_edit {
            Some(state) => {
                let text = state.input.text();
                let mut lines: Vec<ScreenLine> = Vec::new();
                match state.mode {
                    MultiTaskEditMode::Menu => {},
                    MultiTaskEditMode::DueDate => {
                        add_line(&mut lines, plain("Set due date for all selected tasks:"));
                        add_line(&mut lines, plain(text.as_str()));
                        add_line(&mut lines, plain(""));
                    },
                    MultiTaskEditMode::ListName => {
                        add_line(&mut lines, plain("Move all selected tasks to list:"));
                        add_line(&mut lines, plain(text.as_str()));
                        add_line(&mut lines, plain(""));
                        add_line(&mut lines, plain("Suggestions:"));
                        let ghost head = views(lines@);
                        let names = self.data.list_name_suggestions(text.as_str());
                        add_choices(&names, state.suggestion_index, 5, &mut lines);
                        assert(head == seq![
                            ScreenLineModel::Plain("Move all selected tasks to list:"@),
                            ScreenLineModel::Plain(text@),
                            ScreenLineModel::Plain(""@),
                            ScreenLineModel::Plain("Suggestions:"@),
                        ]);
                    },
                }
                let ghost prompt = views(lines@);
                assert(prompt == multi_prompt(self@.data.lists, state@));
                let count = "Selected tasks: ".to_string().concat(
                    to_decimal(state.keys.len() as u64).as_str(),
                );
                add_line(&mut lines, plain(count.as_str()));
                self.data.add_selected_tasks(&state.keys, &mut lines);
                assert(views(lines@) == multi_lines(self@.data, state@));
                let line = match state.mode {
                    MultiTaskEditMode::Menu => None,
                    _ => Some((state.input.chars.len(), state.input.cursor)),
                };
                Some(MultiFrame { lines, line })
            },
            None => None,
        }
    }

    /// The frame of the field that is edited, if it is one of a task, or one of a list.
    fn field_frame(&self, of_task: bool) -> (res: Option<FieldFrame>)
        ensures
            match self@.editor {
                Some(editor) => if is_task_target(editor.target) == of_task {
                    res matches Some(frame) && is_field_frame(frame, self@.data.lists, editor)
                } else {
                    res is None
                },
                None => res is None,
            },
    {
        match &self.editor {
            Some(editor) => {
                let text = editor.input.text();
                match editor.target {
                    EditTarget::Task(_, field) => {
                        if !of_task {
                            return None;
                        }
                        let choices = if field == TaskField::ListName {
                            let names = self.data.list_name_suggestions(text.as_str());
                            let mut lines: Vec<ScreenLine> = Vec::new();
                            let count: usize = names.len();
                            add_choices(&names, editor.suggestion_index, count, &mut lines);
                            assert(views(names@).len() == count);
                            assert(views(lines@) == choices(
                                views(names@),
                                editor.suggestion_index,
                                count as int,
                            ));
                            Some(lines)
                        } else {
                            None
                        };
                        Some(
                            FieldFrame {
                                title: task_field_label(field),
                                text,
                                cursor: editor.input.cursor,
                                choices,
                            },
                        )
                    },
                    EditTarget::List(_, field) => {
                        if of_task {
                            return None;
                        }
                        Some(
                            FieldFrame {
                                title: list_field_label(field),
                                text,
                                cursor: editor.input.cursor,
                                choices: None,
                            },
                        )
                    },
                }
            },
            None => None,
        }
    }

    /// The frame of the open task.
    pub fn task_frame(&self, key: TaskKey) -> (res: Option<TaskFrame>)
        ensures
            match self@.data.task(key) {
                Some(task) => {
                    &&& res matches Some(frame)
                    &&& color_value(frame.color) == color_of_list(self@.data, key.list_id)
                    &&& views(frame.lines@) == task_lines(
                        task,
                        list_name_of(self@.data, key.list_id),
                    )
                    &&& match self@.editor {
                        Some(editor) => if is_task_target(editor.target) {
                            frame.field matches Some(field) && is_field_frame(
                                field,
                                self@.data.lists,
                                editor,
                            )
                        } else {
                            frame.field is None
                        },
                        None => frame.field is None,
                    }
                },
                None => res is None,
            },
    {
        match self.data.get_task(key) {
            Some(task) => {
                let list_name = match self.data.get_list(key.list_id) {
                    Some(list) => list.name.clone(),
                    None => "Unknown".to_string(),
                };
                Some(
                    TaskFrame {
                        color: self.data.list_color(key.list_id),
                        lines: make_task_lines(task, list_name.as_str()),
                        field: self.field_frame(true),
                    },
                )
            },
            None => None,
        }
    }

    /// The frame of the open list.
    pub fn list_frame(&self, list_id: u64, today: Date) -> (res: Option<ListFrame>)
        ensures
            match self@.data.list(list_id) {
                Some(list) => {
                    &&& res matches Some(frame)
                    &&& color_value(frame.color) == parsed_color(list.color_hex)
                    &&& views(frame.lines@) == list_lines(list)
                    &&& frame.title@ == open_list_title(self@)
                    &&& views(frame.rows.rows@) == task_rows(
                        self@.items_of_list(list_id),
                        self@.main_sort_mode,
                        self@.multi_selected_tasks,
                        None,
                        today@,
                    )
                    &&& row_index(frame.rows.selected) == selected_place(
                        self@.items_of_list(list_id),
                        self@.main_sort_mode,
                        shown_index(self@),
                        today@,
                    )
                    &&& match self@.editor {
                        Some(editor) => if is_task_target(editor.target) {
                            frame.field is None
                        } else {
                            frame.field matches Some(field) && is_field_frame(
                                field,
                                self@.data.lists,
                                editor,
                            )
                        },
                        None => frame.field is None,
                    }
                },
                None => res is None,
            },
    {
        match self.data.get_list(list_id) {
            Some(list) => {
                let items = self.items_of_list(list_id);
                let title = match self.main_sort_mode {
                    TaskSortMode::DueDate => if self.show_completed_in_due_mode {
                        "Due Date - (showing completed)"
                    } else {
                        "Due Date - (completed hidden)"
                    },
                    TaskSortMode::TimeLeft => if self.time_left_reversed {
                        "Time Remaining - (asc.)"
                    } else {
                        "Time Remaining - (desc.)"
                    },
                };
                Some(
                    ListFrame {
                        color: parse_hex_color(list.color_hex.as_str()),
                        lines: make_list_lines(list),
                        title,
                        rows: build_task_rows(
                            &items,
                            self.main_sort_mode,
                            &self.multi_selected_tasks,
                            None,
                            self.shown_row(),
                            today,
                        ),
                        field: self.field_frame(false),
                    },
                )
            },
            None => None,
        }
    }
}

} // verus!
