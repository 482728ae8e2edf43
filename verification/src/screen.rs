//! What the screen shows, but for the places and the styles: texts, rows, and where the cursor is.

use vstd::prelude::*;
use vstd::string::*;

use crate::date::Date;
use crate::rows::{color_value, row_index};
use crate::state::{
    clamped, App, AppModel, EditTarget, ListField, MultiTaskEditMode, Page, TaskField,
};
use crate::task::{ListSortMode, Task, TaskSortMode};

verus! {

/// A line on the screen.
#[derive(Debug)]
pub enum ScreenLine {
    Plain(String),
    /// A text in the color of a list.
    Colored(String, Option<(u8, u8, u8)>),
    /// A value with a label, which may stand in the color of the list.
    Labeled { label: String, value: String, in_list_color: bool },
    /// One of the names to choose from.
    Choice(String, bool),
    /// A task with its day, the title in the color of its list.
    Dated { day: String, title: String, color: Option<(u8, u8, u8)> },
}

#[verifier::ext_equal]
pub enum ScreenLineModel {
    Plain(Seq<char>),
    Colored(Seq<char>, Option<(int, int, int)>),
    Labeled { label: Seq<char>, value: Seq<char>, in_list_color: bool },
    Choice(Seq<char>, bool),
    Dated { day: Seq<char>, title: Seq<char>, color: Option<(int, int, int)> },
}

impl View for ScreenLine {
    type V = ScreenLineModel;

    open spec fn view(&self) -> ScreenLineModel {
        match self {
            ScreenLine::Plain(text) => ScreenLineModel::Plain(text@),
            ScreenLine::Colored(text, color) => ScreenLineModel::Colored(
                text@,
                color_value(*color),
            ),
            ScreenLine::Labeled { label, value, in_list_color } => ScreenLineModel::Labeled {
                label: label@,
                value: value@,
                in_list_color: *in_list_color,
            },
            ScreenLine::Choice(text, is_chosen) => ScreenLineModel::Choice(text@, *is_chosen),
            ScreenLine::Dated { day, title, color } => ScreenLineModel::Dated {
                day: day@,
                title: title@,
                color: color_value(*color),
            },
        }
    }
}

/// What stands in the bar of keys: where the program stands, and the keys that it takes there.
pub open spec fn controls(app: AppModel) -> (Seq<char>, Seq<char>) {
    if let Some(state) = app.multi_task_edit {
        (
            "MULTI"@,
            match state.mode {
                MultiTaskEditMode::Menu =>
                    "[r] due date, [l] move to list, [d] delete selected, [esc] cancel"@,
                MultiTaskEditMode::DueDate => "type YYYY-MM-DD, [enter] save, [esc] cancel"@,
                MultiTaskEditMode::ListName =>
                    "type filter, [↑/↓] choose, [enter] save, [esc] cancel"@,
            },
        )
    } else if app.confirm is Some {
        ("CONFIRM"@, "[enter/y] yes, [esc/n] no"@)
    } else if app.show_popup {
        ("POPUP"@, "[enter/esc] close"@)
    } else if let Some(editor) = app.editor {
        (
            "EDIT"@,
            if crate::editing::is_list_choice(editor.target) {
                "type filter, [↑/↓] choose, [enter] save, [esc] cancel"@
            } else {
                "type value, [enter] save, [esc] cancel"@
            },
        )
    } else if app.expanded_task_key is Some {
        ("TASK"@, "[esc] back, [delete] delete task"@)
    } else if app.expanded_list_id is Some {
        (
            "LIST+"@,
            "[esc] back, [enter] task, [a] done, [d] delete task, [n] new, [t] name, [p] prio, [q] color, [x] sort, "@
                + (if app.main_sort_mode == TaskSortMode::TimeLeft {
                "[c] reverse"@
            } else {
                "[c] hide/show done"@
            }),
        )
    } else {
        page_controls(app)
    }
}

pub open spec fn page_controls(app: AppModel) -> (Seq<char>, Seq<char>) {
    match app.page {
        Page::Main => (
            "MAIN"@,
            "[c] "@ + (match app.main_sort_mode {
                TaskSortMode::DueDate => if app.show_completed_in_due_mode {
                    "hide completed"@
                } else {
                    "show completed"@
                },
                TaskSortMode::TimeLeft => if app.time_left_reversed {
                    "asc."@
                } else {
                    "desc."@
                },
            }) + ", [x] "@ + (match app.main_sort_mode {
                TaskSortMode::DueDate => "sort by time remaining"@,
                TaskSortMode::TimeLeft => "sort by due date"@,
            }) + ", [⬇/⬆(j/k)] navigate, [q] quit app"@,
        ),
        Page::TaskLists => (
            "LISTS"@,
            "[c] "@ + (if app.list_sort_reversed {
                "asc."@
            } else {
                "desc."@
            }) + ", [x] "@ + (match app.list_sort_mode {
                ListSortMode::RemainingCount => "sort by priority"@,
                ListSortMode::Priority => "sort by remaining tasks"@,
            }) + ", [⬇/⬆(j/k)] navigate, [q] quit app"@,
        ),
    }
}

/// What stands in the bar of keys.
#[derive(Debug)]
pub struct Controls {
    pub label: &'static str,
    pub text: String,
}

impl App {
    fn page_controls_text(&self) -> (res: Controls)
        ensures
            (res.label@, res.text@) == page_controls(self@),
    {
        match self.page {
            Page::Main => {
                let order = match self.main_sort_mode {
                    TaskSortMode::DueDate => if self.show_completed_in_due_mode {
                        "hide completed"
                    } else {
                        "show completed"
                    },
                    TaskSortMode::TimeLeft => if self.time_left_reversed {
                        "asc."
                    } else {
                        "desc."
                    },
                };
                let sort = match self.main_sort_mode {
                    TaskSortMode::DueDate => "sort by time remaining",
                    TaskSortMode::TimeLeft => "sort by due date",
                };
                Controls {
                    label: "MAIN",
                    text: "[c] ".to_string().concat(order).concat(", [x] ").concat(sort).concat(
                        ", [⬇/⬆(j/k)] navigate, [q] quit app",
                    ),
                }
            },
            Page::TaskLists => {
                let order = if self.list_sort_reversed {
                    "asc."
                } else {
                    "desc."
                };
                let sort = match self.list_sort_mode {
                    ListSortMode::RemainingCount => "sort by priority",
                    ListSortMode::Priority => "sort by remaining tasks",
                };
                Controls {
                    label: "LISTS",
                    text: "[c] ".to_string().concat(order).concat(", [x] ").concat(sort).concat(
                        ", [⬇/⬆(j/k)] navigate, [q] quit app",
                    ),
                }
            },
        }
    }

    /// What stands in the bar of keys.
    pub fn controls_text(&self) -> (res: Controls)
        ensures
            (res.label@, res.text@) == controls(self@),
    {
        if let Some(state) = &self.multi_task_edit {
            let text = match state.mode {
                MultiTaskEditMode::Menu =>
                    "[r] due date, [l] move to list, [d] delete selected, [esc] cancel",
                MultiTaskEditMode::DueDate => "type YYYY-MM-DD, [enter] save, [esc] cancel",
                MultiTaskEditMode::ListName =>
                    "type filter, [↑/↓] choose, [enter] save, [esc] cancel",
            };
            return Controls { label: "MULTI", text: text.to_string() };
        }
        if self.confirm.is_some() {
            return Controls { label: "CONFIRM", text: "[enter/y] yes, [esc/n] no".to_string() };
        }
        if self.show_popup {
            return Controls { label: "POPUP", text: "[enter/esc] close".to_string() };
        }
        if let Some(editor) = &self.editor {
            let is_choice = match editor.target {
                EditTarget::Task(_, field) => field == TaskField::ListName,
                EditTarget::List(_, _) => false,
            };
            let text = if is_choice {
                "type filter, [↑/↓] choose, [enter] save, [esc] cancel"
            } else {
                "type value, [enter] save, [esc] cancel"
            };
            return Controls { label: "EDIT", text: text.to_string() };
        }
        if self.expanded_task_key.is_some() {
            return Controls {
                label: "TASK",
                text: "[esc] back, [delete] delete task".to_string(),
            };
        }
        if self.expanded_list_id.is_some() {
            let order = if self.main_sort_mode == TaskSortMode::TimeLeft {
                "[c] reverse"
            } else {
                "[c] hide/show done"
            };
            let lead =
                "[esc] back, [enter] task, [a] done, [d] delete task, [n] new, [t] name, [p] prio, [q] color, [x] sort, ";
            return Controls { label: "LIST+", text: lead.to_string().concat(order) };
        }
        self.page_controls_text()
    }
}

/// The search line of the page in front.
pub open spec fn search_title(text: Seq<char>, is_active: bool) -> Seq<char> {
    if is_active {
        "Search -- [enter] apply search, [esc] clear"@
    } else if text.len() == 0 {
        "Search -- [/] start search"@
    } else {
        "Search -- [/] edit search, [esc] clear search"@
    }
}

/// The search line of the page in front, and where the cursor is while it is typed in.
#[derive(Debug)]
pub struct SearchBar {
    pub title: &'static str,
    pub text: String,
    pub cursor: Option<usize>,
}

pub open spec fn search_line(app: AppModel) -> crate::input::LineModel {
    match app.page {
        Page::Main => app.search,
        Page::TaskLists => app.list_search,
    }
}

pub open spec fn is_searching(app: AppModel) -> bool {
    match app.page {
        Page::Main => app.search_active,
        Page::TaskLists => app.list_search_active,
    }
}

impl App {
    /// The search line of the page in front.
    pub fn search_bar(&self) -> (res: SearchBar)
        ensures
            res.text@ == search_line(self@).text,
            res.title@ == search_title(search_line(self@).text, is_searching(self@)),
            row_index(res.cursor) == (if is_searching(self@) {
                Some(search_line(self@).cursor)
            } else {
                None
            }),
    {
        let (line, is_active) = match self.page {
            Page::Main => (&self.search, self.search_active),
            Page::TaskLists => (&self.list_search, self.list_search_active),
        };
        let title = if is_active {
            "Search -- [enter] apply search, [esc] clear"
        } else if line.chars.len() == 0 {
            "Search -- [/] start search"
        } else {
            "Search -- [/] edit search, [esc] clear search"
        };
        SearchBar {
            title,
            text: line.text(),
            cursor: if is_active {
                Some(line.cursor)
            } else {
                None
            },
        }
    }
}

pub open spec fn min_of(a: int, b: int) -> int {
    if a < b {
        a
    } else {
        b
    }
}

/// Where the cursor stands on the screen: in the frame that begins at (`x`, `y`) and is `width`
/// wide, in front of the character at `cursor`, and not outside the frame.
pub open spec fn cursor_place(x: int, y: int, width: int, len: int, cursor: int) -> (int, int) {
    let room = if width < 3 {
        0
    } else {
        width - 3
    };
    let offset = min_of(min_of(cursor, len), room);
    (min_of(min_of(x + 1, u16::MAX as int) + offset, u16::MAX as int), min_of(y + 1, u16::MAX as int))
}

/// Where the cursor stands on the screen.
pub fn cursor_position_for_input(x: u16, y: u16, width: u16, len: usize, cursor: usize) -> (res: (
    u16,
    u16,
))
    ensures
        (res.0 as int, res.1 as int) == cursor_place(
            x as int,
            y as int,
            width as int,
            len as int,
            cursor as int,
        ),
{
    let room: u16 = if width < 3 {
        0
    } else {
        width - 3
    };
    let clamped: usize = if cursor < len {
        cursor
    } else {
        len
    };
    let offset: u16 = if clamped < room as usize {
        clamped as u16
    } else {
        room
    };
    let left: u16 = if x < u16::MAX {
        x + 1
    } else {
        u16::MAX
    };
    let column: u16 = if left <= u16::MAX - offset {
        left + offset
    } else {
        u16::MAX
    };
    let row: u16 = if y < u16::MAX {
        y + 1
    } else {
        u16::MAX
    };
    (column, row)
}

pub open spec fn task_label(field: TaskField) -> Seq<char> {
    match field {
        TaskField::Title => "Title"@,
        TaskField::Estimated => "Estimated"@,
        TaskField::Actual => "Actual"@,
        TaskField::DueDate => "Due Date"@,
        TaskField::ListName => "Task List"@,
    }
}

pub fn task_field_label(field: TaskField) -> (res: &'static str)
    ensures
        res@ == task_label(field),
{
    match field {
        TaskField::Title => "Title",
        TaskField::Estimated => "Estimated",
        TaskField::Actual => "Actual",
        TaskField::DueDate => "Due Date",
        TaskField::ListName => "Task List",
    }
}

pub open spec fn list_label(field: ListField) -> Seq<char> {
    match field {
        ListField::Name => "Task List"@,
        ListField::Priority => "Priority"@,
        ListField::Color => "Color"@,
    }
}

pub fn list_field_label(field: ListField) -> (res: &'static str)
    ensures
        res@ == list_label(field),
{
    match field {
        ListField::Name => "Task List",
        ListField::Priority => "Priority",
        ListField::Color => "Color",
    }
}

} // verus!
