use life_tracking::input::{KeyCode, KeyPress};
use life_tracking::labels::{empty_if_blank, fit_column, pad_left};
use life_tracking::preview::description_match_preview;
use life_tracking::rows::TaskRow;
use life_tracking::scratchpad::{add_help, split_lines, strip_vim_help_block};
use life_tracking::screen::{cursor_position_for_input, ScreenLine};
use life_tracking::state::shift_index;
use life_tracking::store::{ConfigContent, ConfigFile};
use life_tracking::{App, AppData, Date, Task, TaskKey, TaskList};

fn day(year: i32, month: u32, day: u32) -> Date {
    Date::from_ymd(year, month, day).expect("valid date")
}

fn today() -> Date {
    day(2026, 3, 2)
}

fn task(id: u64, title: &str, due_date: Date) -> Task {
    Task {
        id,
        title: title.to_string(),
        description: format!("about {}", title),
        due_date,
        estimated_minutes: 5,
        actual_minutes: 12,
        completed: false,
        completed_on: None,
    }
}

fn app_of(tasks: Vec<Task>) -> App {
    let file = ConfigFile {
        name: "a.toml".to_string(),
        content: ConfigContent::List(TaskList {
            id: 1,
            name: "Work".to_string(),
            priority: 2,
            color_hex: "#4DA3FF".to_string(),
            tasks,
        }),
    };
    let (data, messages) = AppData::load_from_dir(vec![file], today());
    App::new(data, messages, "  ".to_string())
}

fn press(app: &mut App, c: char) {
    let key = KeyPress {
        code: KeyCode::Char(c),
        shift: false,
        control: false,
    };
    assert!(app.press(key, today()).is_some());
}

fn summary(rows: &[TaskRow]) -> Vec<String> {
    rows.iter()
        .map(|row| match row {
            TaskRow::Header { label, is_today } => format!("{}{}", label, is_today),
            TaskRow::Note(text) => text.clone(),
            TaskRow::Task { head, tail, .. } => format!("{}{}", head, tail),
        })
        .collect()
}

fn texts(lines: &[ScreenLine]) -> Vec<String> {
    lines
        .iter()
        .map(|line| match line {
            ScreenLine::Plain(text) => text.clone(),
            ScreenLine::Colored(text, _) => text.clone(),
            ScreenLine::Labeled { label, value, .. } => format!("{}{}", label, value),
            ScreenLine::Choice(text, chosen) => format!("{}{}", text, chosen),
            ScreenLine::Dated { day, title, .. } => format!("{}{}", day, title),
        })
        .collect()
}

#[test]
fn columns_are_filled_or_cut_off() {
    assert_eq!(fit_column(" ab ", 4), "ab  ");
    assert_eq!(fit_column("abcd", 4), "abcd");
    assert_eq!(fit_column("abcde", 4), "abc\u{2026}");
    assert_eq!(fit_column("abcde", 1), "\u{2026}");
    assert_eq!(fit_column("abcde", 0), "");
    assert_eq!(pad_left("7", 4), "   7");
    assert_eq!(pad_left("12345", 4), "12345");
    assert_eq!(empty_if_blank(" x "), "x");
    assert_eq!(empty_if_blank(" \n"), "(empty)");
}

#[test]
fn selections_stay_among_the_rows() {
    assert_eq!(shift_index(0, 3, -1), 0);
    assert_eq!(shift_index(1, 3, 1), 2);
    assert_eq!(shift_index(2, 3, 1), 2);
    assert_eq!(shift_index(9, 3, -1), 2);
    assert_eq!(shift_index(9, 0, 1), 0);
}

#[test]
fn the_cursor_stays_in_its_frame() {
    assert_eq!(cursor_position_for_input(10, 5, 20, 4, 2), (13, 6));
    assert_eq!(cursor_position_for_input(10, 5, 20, 4, 9), (15, 6));
    assert_eq!(cursor_position_for_input(10, 5, 6, 40, 9), (14, 6));
    assert_eq!(cursor_position_for_input(10, 5, 2, 40, 9), (11, 6));
    assert_eq!(
        cursor_position_for_input(u16::MAX, u16::MAX, 9, 4, 2),
        (u16::MAX, u16::MAX)
    );
}

#[test]
fn tasks_are_grouped_by_day_with_today_among_them() {
    let app = app_of(vec![
        task(1, "b", day(2026, 3, 5)),
        task(2, "a", day(2026, 3, 1)),
        task(3, "c", day(2026, 3, 1)),
    ]);
    let page = app.main_page(today());
    assert_eq!(
        page.title,
        "Tasks (due date) -- [a] mark completed, [del/bckspc] delete task, [n] new task, [enter] open/edit task"
    );
    assert_eq!(
        summary(&page.rows.rows),
        vec![
            "2026-03-01false".to_string(),
            "[ ] a                      | Work             | est:   5h actual:  12h left:  -7h"
                .to_string(),
            "[ ] c                      | Work             | est:   5h actual:  12h left:  -7h"
                .to_string(),
            "2026-03-02 -- TODAYtrue".to_string(),
            "2026-03-05false".to_string(),
            "[ ] b                      | Work             | est:   5h actual:  12h left:  -7h"
                .to_string(),
        ]
    );
    assert_eq!(page.rows.selected, Some(1));
}

#[test]
fn today_closes_the_rows_of_the_past() {
    let app = app_of(vec![task(1, "a", day(2026, 3, 1))]);
    let rows = app.main_page(today()).rows;
    assert_eq!(rows.rows.len(), 3);
    assert_eq!(summary(&rows.rows)[2], "2026-03-02 -- TODAYtrue");
    let app = app_of(vec![task(1, "a", today())]);
    assert_eq!(summary(&app.main_page(today()).rows.rows).len(), 2);
}

#[test]
fn there_is_a_word_for_no_tasks() {
    let mut app = app_of(vec![]);
    let rows = app.main_page(today()).rows;
    assert_eq!(summary(&rows.rows), vec!["2026-03-02 -- TODAYtrue"]);
    assert_eq!(rows.selected, None);
    press(&mut app, 'x');
    let rows = app.main_page(today()).rows;
    assert_eq!(summary(&rows.rows), vec!["No matching tasks"]);
    assert_eq!(rows.selected, None);
}

#[test]
fn what_a_search_finds_is_shown_with_the_words_around_it() {
    let text = "one two three four Five six seven eight nine ten";
    let found = description_match_preview(text, " fIVE s ").expect("found");
    assert_eq!(found.before, "two three four ");
    assert_eq!(found.matched, "Five s");
    assert_eq!(found.after, "ix seven eight nine");
    assert!(found.has_prefix);
    assert!(found.has_suffix);
    let found = description_match_preview("\u{e4}bc def", "BC").expect("found");
    assert_eq!(found.before, "\u{e4}");
    assert_eq!(found.matched, "bc");
    assert_eq!(found.after, " def");
    assert!(!found.has_prefix && !found.has_suffix);
    assert!(description_match_preview(text, "eleven").is_none());
    assert!(description_match_preview(text, "  ").is_none());
}

#[test]
fn the_search_is_shown_in_the_rows_of_the_main_page_only() {
    let mut app = app_of(vec![task(1, "a", today())]);
    press(&mut app, '/');
    for c in "about".chars() {
        press(&mut app, c);
    }
    let preview = |row: &TaskRow| match row {
        TaskRow::Task { preview, .. } => preview.is_some(),
        _ => false,
    };
    assert!(preview(&app.main_page(today()).rows.rows[1]));
    let frame = app.list_frame(1, today()).expect("list");
    assert!(!preview(&frame.rows.rows[1]));
}

#[test]
fn the_help_block_is_left_out() {
    let text = add_help(&vec!["# a", "# b"], "hello\nworld");
    assert_eq!(
        text,
        "# ----- life-tracking help -----\n# a\n# b\n# ----- end life-tracking help -----\n\nhello\nworld"
    );
    assert_eq!(strip_vim_help_block(&text), "hello\nworld");
    assert_eq!(strip_vim_help_block(&format!("{}\n", text)), "hello\nworld");
    assert_eq!(strip_vim_help_block("\n\nx\r\ny\n\n"), "x\ny\n");
    assert_eq!(strip_vim_help_block(""), "");
    assert_eq!(
        strip_vim_help_block("a\n# ----- life-tracking help -----\nb"),
        "a"
    );
}

#[test]
fn lines_end_with_a_feed() {
    assert_eq!(split_lines("a\r\nb\n\nc"), vec!["a", "b", "", "c"]);
    assert_eq!(split_lines("a\n"), vec!["a"]);
    assert_eq!(split_lines("a\r"), vec!["a\r"]);
    assert_eq!(split_lines(""), Vec::<String>::new());
}

#[test]
fn the_bar_of_keys_follows_the_state() {
    let mut app = app_of(vec![task(1, "a", today()), task(2, "b", today())]);
    assert_eq!(app.controls_text().label, "MAIN");
    assert_eq!(
        app.controls_text().text,
        "[c] hide completed, [x] sort by time remaining, [\u{2b07}/\u{2b06}(j/k)] navigate, [q] quit app"
    );
    press(&mut app, 'x');
    assert!(app
        .controls_text()
        .text
        .starts_with("[c] desc., [x] sort by due date, "));
    press(&mut app, 'u');
    assert_eq!(app.controls_text().label, "LISTS");
    assert!(app
        .controls_text()
        .text
        .starts_with("[c] desc., [x] sort by priority, "));
    app.expanded_list_id = Some(1);
    assert_eq!(app.controls_text().label, "LIST+");
    assert!(app.controls_text().text.ends_with("[x] sort, [c] reverse"));
    app.expanded_task_key = Some(TaskKey {
        list_id: 1,
        task_id: 1,
    });
    assert_eq!(app.controls_text().label, "TASK");
    press(&mut app, 'l');
    assert_eq!(app.controls_text().label, "EDIT");
    assert_eq!(
        app.controls_text().text,
        "type filter, [\u{2191}/\u{2193}] choose, [enter] save, [esc] cancel"
    );
    app.show_popup = true;
    assert_eq!(app.controls_text().label, "POPUP");
}

#[test]
fn the_search_line_has_a_title() {
    let mut app = app_of(vec![]);
    assert_eq!(app.search_bar().title, "Search -- [/] start search");
    assert_eq!(app.search_bar().cursor, None);
    press(&mut app, '/');
    press(&mut app, 'z');
    let bar = app.search_bar();
    assert_eq!(bar.title, "Search -- [enter] apply search, [esc] clear");
    assert_eq!(bar.text, "z");
    assert_eq!(bar.cursor, Some(1));
    app.search_active = false;
    assert_eq!(
        app.search_bar().title,
        "Search -- [/] edit search, [esc] clear search"
    );
}

#[test]
fn lists_are_shown_with_their_counts() {
    let mut app = app_of(vec![task(1, "a", today()), task(2, " ", today())]);
    press(&mut app, 'a');
    let page = app.list_page();
    assert_eq!(
        page.title,
        "Task Lists (remaining tasks (desc.)) -- [del/bckspc] delete task list, [n] new task list, [enter] open/edit list"
    );
    assert_eq!(
        texts(&page.rows),
        vec!["Work                     | 1 to-do | Completed: 1/2"]
    );
    assert_eq!(page.selected, Some(0));
    assert_eq!(texts(&page.side), vec!["1/2 completed", "a", "(empty)"]);
    assert_eq!(
        texts(&app.data.priority_panel()),
        vec![" 1. Work             | 1/2"]
    );
    assert_eq!(app.notes_panel(), "(empty)");
    assert!(app.data.delete_task_list(1, today()));
    let page = app.list_page();
    assert_eq!(texts(&page.rows), vec!["No task lists available"]);
    assert_eq!(page.selected, None);
    assert_eq!(texts(&page.side), vec!["No list selected"]);
    assert_eq!(texts(&app.data.priority_panel()), vec!["No task lists"]);
}

#[test]
fn an_open_task_shows_its_fields() {
    let mut app = app_of(vec![task(1, "a", today())]);
    let key = TaskKey {
        list_id: 1,
        task_id: 1,
    };
    app.expanded_task_key = Some(key);
    press(&mut app, 'a');
    press(&mut app, 'l');
    let frame = app.task_frame(key).expect("task");
    assert_eq!(frame.color, Some((0x4D, 0xA3, 0xFF)));
    assert_eq!(
        texts(&frame.lines),
        vec![
            "Title [t]: a",
            "Task List [l]: Work",
            "Estimated [e]: 5 hours",
            "Actual [w]: 12 hours",
            "Due Date [r]: 2026-03-02",
            "Completed [a]: Yes (2026-03-02)",
            "",
            "Description [d]:\nabout a",
        ]
    );
    let field = frame.field.expect("field");
    assert_eq!(field.title, "Task List");
    assert_eq!(field.text, "Work");
    assert_eq!(field.cursor, 4);
    assert_eq!(texts(&field.choices.expect("choices")), vec!["Worktrue"]);
    assert!(app
        .task_frame(TaskKey {
            list_id: 1,
            task_id: 9
        })
        .is_none());
}

#[test]
fn an_open_list_shows_its_fields() {
    let mut app = app_of(vec![task(1, "a", today())]);
    app.expanded_list_id = Some(1);
    press(&mut app, 'p');
    let frame = app.list_frame(1, today()).expect("list");
    assert_eq!(
        texts(&frame.lines),
        vec![
            "Task List: Work",
            "Priority: 2",
            "Color: #4DA3FF",
            "Items: total 1 | remaining 1",
        ]
    );
    assert_eq!(frame.title, "Due Date - (showing completed)");
    assert_eq!(frame.rows.selected, Some(1));
    assert_eq!(frame.field.expect("field").title, "Priority");
    assert!(app.list_frame(2, today()).is_none());
}

#[test]
fn frames_in_front_have_their_lines() {
    let mut app = app_of(vec![task(1, "a", today()), task(2, "b", today())]);
    assert!(app.question().is_none());
    assert!(app.multi_frame().is_none());
    press(&mut app, 'J');
    let enter = KeyPress {
        code: KeyCode::Enter,
        shift: false,
        control: false,
    };
    assert!(app.press(enter, today()).is_some());
    assert_eq!(
        texts(&app.multi_frame().expect("multi").lines),
        vec!["Selected tasks: 2", "2026-03-02 | a", "2026-03-02 | b"]
    );
    press(&mut app, 'l');
    press(&mut app, 'w');
    let multi = app.multi_frame().expect("multi");
    assert_eq!(
        texts(&multi.lines)[..5],
        [
            "Move all selected tasks to list:",
            "w",
            "",
            "Suggestions:",
            "Worktrue"
        ]
    );
    assert_eq!(multi.line, Some((1, 1)));
    app.multi_task_edit = None;
    press(&mut app, 'd');
    assert_eq!(
        texts(&app.question().expect("question")),
        vec![
            "Delete task 'b'?",
            "",
            "Press Enter/Y to delete, Esc/N to cancel."
        ]
    );
    app.popup_messages.push("look".to_string());
    assert_eq!(
        texts(&app.popup()),
        vec!["- look", "", "Press Enter or Esc to close this popup."]
    );
}
