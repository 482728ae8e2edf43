use life_tracking::effects::{AfterSave, Effect, TextPurpose};
use life_tracking::input::{KeyCode, KeyPress};
use life_tracking::state::{ConfirmAction, MultiTaskEditMode, Page};
use life_tracking::store::{ConfigContent, ConfigFile};
use life_tracking::{App, AppData, Date, ListSortMode, Task, TaskKey, TaskList, TaskSortMode};

fn day(year: i32, month: u32, day: u32) -> Date {
    Date::from_ymd(year, month, day).expect("valid date")
}

fn today() -> Date {
    day(2026, 3, 2)
}

fn task(id: u64, title: &str, due_date: Date) -> Task {
    Task {
        id,
        title: title.to_string(),
        description: format!("about {}", title),
        due_date,
        estimated_minutes: 5,
        actual_minutes: 2,
        completed: false,
        completed_on: None,
    }
}

fn list(id: u64, name: &str, priority: u8, tasks: Vec<Task>) -> ConfigFile {
    ConfigFile {
        name: format!("{}.toml", name),
        content: ConfigContent::List(TaskList {
            id,
            name: name.to_string(),
            priority,
            color_hex: "#4DA3FF".to_string(),
            tasks,
        }),
    }
}

fn app() -> App {
    let files = vec![
        list(
            1,
            "Work",
            2,
            vec![
                task(1, "one", day(2026, 3, 1)),
                task(2, "two", day(2026, 3, 2)),
            ],
        ),
        list(2, "Home", 1, vec![task(3, "three", day(2026, 3, 3))]),
    ];
    let (data, messages) = AppData::load_from_dir(files, today());
    App::new(data, messages, "some notes".to_string())
}

fn key(list_id: u64, task_id: u64) -> TaskKey {
    TaskKey { list_id, task_id }
}

fn plain(code: KeyCode) -> KeyPress {
    KeyPress {
        code,
        shift: false,
        control: false,
    }
}

fn press(app: &mut App, code: KeyCode) -> Effect {
    app.press(plain(code), today()).expect("accepted")
}

fn idle(app: &mut App, code: KeyCode) {
    let effect = press(app, code);
    assert!(matches!(effect, Effect::Idle), "{:?}", effect);
}

fn saves(app: &mut App, code: KeyCode) {
    let effect = press(app, code);
    assert!(
        matches!(effect, Effect::Save(AfterSave::Report)),
        "{:?}",
        effect
    );
    app.saved(AfterSave::Report, Ok(()));
}

fn chars(app: &mut App, text: &str) {
    for c in text.chars() {
        idle(app, KeyCode::Char(c));
    }
}

fn editor_text(app: &App) -> String {
    app.editor.as_ref().expect("editor").input.text()
}

#[test]
fn the_program_begins_on_the_main_page() {
    let app = app();
    assert_eq!(app.page, Page::Main);
    assert!(app.running);
    assert!(!app.show_popup);
    assert_eq!(app.main_sort_mode, TaskSortMode::DueDate);
    assert_eq!(app.list_sort_mode, ListSortMode::RemainingCount);
    assert!(app.show_completed_in_due_mode);
    assert_eq!(app.notes_text, "some notes");
}

#[test]
fn messages_are_shown_until_they_are_closed() {
    let (data, _) = AppData::load_from_dir(Vec::new(), today());
    let mut app = App::new(data, vec!["look".to_string()], String::new());
    assert!(app.show_popup);
    idle(&mut app, KeyCode::Char('q'));
    assert!(app.show_popup && app.running);
    idle(&mut app, KeyCode::Enter);
    assert!(!app.show_popup);
    idle(&mut app, KeyCode::Char('q'));
    assert!(!app.running);
}

#[test]
fn rows_are_selected_and_opened() {
    let mut app = app();
    idle(&mut app, KeyCode::Char('j'));
    idle(&mut app, KeyCode::Down);
    idle(&mut app, KeyCode::Down);
    assert_eq!(app.selected_main_idx, 2);
    idle(&mut app, KeyCode::Char('k'));
    idle(&mut app, KeyCode::Enter);
    assert_eq!(app.expanded_task_key, Some(key(1, 2)));
    idle(&mut app, KeyCode::Esc);
    assert_eq!(app.expanded_task_key, None);
    idle(&mut app, KeyCode::Up);
    idle(&mut app, KeyCode::Up);
    idle(&mut app, KeyCode::Up);
    assert_eq!(app.selected_main_idx, 0);
}

#[test]
fn completing_a_task_saves_it() {
    let mut app = app();
    saves(&mut app, KeyCode::Char('a'));
    let task = app.data.get_task(key(1, 1)).expect("task");
    assert!(task.completed);
    assert_eq!(task.completed_on, Some(today()));
    idle(&mut app, KeyCode::Char('c'));
    assert!(!app.show_completed_in_due_mode);
    assert_eq!(app.main_items().len(), 2);
}

#[test]
fn a_failed_save_is_reported() {
    let mut app = app();
    assert!(matches!(
        press(&mut app, KeyCode::Char('a')),
        Effect::Save(AfterSave::Report)
    ));
    app.saved(AfterSave::Report, Err("disk full".to_string()));
    assert_eq!(app.popup_messages, vec!["save error: disk full"]);
    assert!(app.show_popup);
    assert!(app.data.get_task(key(1, 1)).expect("task").completed);
}

#[test]
fn searching_narrows_the_rows() {
    let mut app = app();
    idle(&mut app, KeyCode::Char('/'));
    assert!(app.search_active);
    chars(&mut app, "thqree");
    for _ in 0..3 {
        idle(&mut app, KeyCode::Left);
    }
    idle(&mut app, KeyCode::Backspace);
    assert_eq!(app.search.text(), "three");
    let ignored = KeyPress {
        code: KeyCode::Char('x'),
        shift: false,
        control: true,
    };
    assert!(app.press(ignored, today()).is_some());
    assert_eq!(app.search.text(), "three");
    assert_eq!(app.main_items().len(), 1);
    idle(&mut app, KeyCode::Enter);
    assert!(!app.search_active);
    idle(&mut app, KeyCode::Esc);
    assert_eq!(app.search.text(), "");
    assert_eq!(app.main_items().len(), 3);
}

#[test]
fn escape_leaves_the_search_line_empty() {
    let mut app = app();
    idle(&mut app, KeyCode::Char('/'));
    chars(&mut app, "zz");
    idle(&mut app, KeyCode::Home);
    idle(&mut app, KeyCode::Delete);
    assert_eq!(app.search.text(), "z");
    idle(&mut app, KeyCode::Right);
    idle(&mut app, KeyCode::Right);
    assert_eq!(app.search.cursor, 1);
    idle(&mut app, KeyCode::Esc);
    assert!(!app.search_active);
    assert_eq!(app.search.text(), "");
    assert_eq!(app.search.cursor, 0);
}

#[test]
fn sorting_is_toggled_and_turned_round() {
    let mut app = app();
    idle(&mut app, KeyCode::Char('x'));
    assert_eq!(app.main_sort_mode, TaskSortMode::TimeLeft);
    idle(&mut app, KeyCode::Char('c'));
    assert!(app.time_left_reversed);
    assert!(app.show_completed_in_due_mode);
    idle(&mut app, KeyCode::Char('x'));
    assert_eq!(app.main_sort_mode, TaskSortMode::DueDate);
}

#[test]
fn a_task_is_deleted_only_after_a_question() {
    let mut app = app();
    idle(&mut app, KeyCode::Char('d'));
    assert_eq!(
        app.confirm.as_ref().expect("question").message,
        "Delete task 'one'?"
    );
    idle(&mut app, KeyCode::Char('x'));
    assert!(app.confirm.is_some());
    idle(&mut app, KeyCode::Char('n'));
    assert!(app.confirm.is_none());
    assert!(app.data.get_task(key(1, 1)).is_some());
    idle(&mut app, KeyCode::Backspace);
    saves(&mut app, KeyCode::Char('Y'));
    assert!(app.data.get_task(key(1, 1)).is_none());
    assert!(app.confirm.is_none());
}

#[test]
fn deleting_the_open_task_closes_it() {
    let mut app = app();
    idle(&mut app, KeyCode::Enter);
    idle(&mut app, KeyCode::Delete);
    saves(&mut app, KeyCode::Enter);
    assert_eq!(app.expanded_task_key, None);
    assert!(app.data.get_task(key(1, 1)).is_none());
}

#[test]
fn an_open_task_that_is_gone_has_no_title() {
    let mut app = app();
    app.expanded_task_key = Some(key(7, 7));
    idle(&mut app, KeyCode::Delete);
    let words: Vec<&str> = vec!["Delete task 'this", "task'?"];
    assert_eq!(
        app.confirm.as_ref().expect("question").message,
        words.join(" ")
    );
    idle(&mut app, KeyCode::Enter);
    assert_eq!(app.expanded_task_key, None);
}

#[test]
fn a_title_is_edited_up_to_its_limit() {
    let mut app = app();
    idle(&mut app, KeyCode::Enter);
    idle(&mut app, KeyCode::Char('t'));
    assert_eq!(editor_text(&app), "one");
    for _ in 0..40 {
        idle(&mut app, KeyCode::Char('x'));
    }
    assert_eq!(editor_text(&app).chars().count(), 30);
    saves(&mut app, KeyCode::Enter);
    assert!(app.editor.is_none());
    assert_eq!(
        app.data.get_task(key(1, 1)).expect("task").title,
        format!("one{}", "x".repeat(27))
    );
}

#[test]
fn escape_gives_up_a_field() {
    let mut app = app();
    idle(&mut app, KeyCode::Enter);
    idle(&mut app, KeyCode::Char('t'));
    chars(&mut app, "more");
    idle(&mut app, KeyCode::Esc);
    assert!(app.editor.is_none());
    assert_eq!(app.data.get_task(key(1, 1)).expect("task").title, "one");
}

#[test]
fn hours_take_digits_only() {
    let mut app = app();
    idle(&mut app, KeyCode::Enter);
    idle(&mut app, KeyCode::Char('e'));
    assert_eq!(editor_text(&app), "5");
    chars(&mut app, "a2-");
    assert_eq!(editor_text(&app), "52");
    saves(&mut app, KeyCode::Enter);
    assert_eq!(
        app.data.get_task(key(1, 1)).expect("task").estimated_minutes,
        52
    );
    idle(&mut app, KeyCode::Char('w'));
    idle(&mut app, KeyCode::Backspace);
    idle(&mut app, KeyCode::Enter);
    assert_eq!(
        app.data.get_task(key(1, 1)).expect("task").actual_minutes,
        2
    );
    idle(&mut app, KeyCode::Char('w'));
    chars(&mut app, "99999999999");
    idle(&mut app, KeyCode::Enter);
    assert_eq!(
        app.data.get_task(key(1, 1)).expect("task").actual_minutes,
        2
    );
}

#[test]
fn a_due_date_is_edited_or_refused() {
    let mut app = app();
    idle(&mut app, KeyCode::Enter);
    idle(&mut app, KeyCode::Char('r'));
    assert_eq!(editor_text(&app), "2026-03-01");
    idle(&mut app, KeyCode::Backspace);
    chars(&mut app, "9");
    saves(&mut app, KeyCode::Enter);
    assert_eq!(
        app.data.get_task(key(1, 1)).expect("task").due_date,
        day(2026, 3, 9)
    );
    idle(&mut app, KeyCode::Char('r'));
    chars(&mut app, "9");
    idle(&mut app, KeyCode::Enter);
    assert_eq!(
        app.popup_messages,
        vec!["invalid due date format; use YYYY-MM-DD"]
    );
    assert!(app.editor.is_none());
}

#[test]
fn an_unchanged_date_stays() {
    let mut app = app();
    idle(&mut app, KeyCode::Enter);
    idle(&mut app, KeyCode::Char('r'));
    saves(&mut app, KeyCode::Enter);
    assert_eq!(
        app.data.get_task(key(1, 1)).expect("task").due_date,
        day(2026, 3, 1)
    );
}

#[test]
fn a_task_is_moved_to_the_suggested_list() {
    let mut app = app();
    idle(&mut app, KeyCode::Enter);
    idle(&mut app, KeyCode::Char('l'));
    for _ in 0..4 {
        idle(&mut app, KeyCode::Backspace);
    }
    idle(&mut app, KeyCode::Down);
    idle(&mut app, KeyCode::Down);
    assert_eq!(app.editor.as_ref().expect("editor").suggestion_index, 1);
    idle(&mut app, KeyCode::Up);
    assert_eq!(app.editor.as_ref().expect("editor").suggestion_index, 0);
    saves(&mut app, KeyCode::Enter);
    assert_eq!(
        app.data.get_task(key(2, 1)).map(|t| t.title.as_str()),
        Some("one")
    );
    assert!(app.data.get_task(key(1, 1)).is_none());
}

#[test]
fn a_list_that_is_not_there_changes_nothing() {
    let mut app = app();
    idle(&mut app, KeyCode::Enter);
    idle(&mut app, KeyCode::Char('l'));
    chars(&mut app, "shop");
    idle(&mut app, KeyCode::Enter);
    assert!(app.data.get_task(key(1, 1)).is_some());
}

#[test]
fn a_new_task_goes_to_the_list_of_the_highest_priority() {
    let mut app = app();
    let effect = press(&mut app, KeyCode::Char('n'));
    let created = key(2, 4);
    assert!(matches!(effect, Effect::Save(AfterSave::OpenMainTask(k)) if k == created));
    assert_eq!(app.expanded_task_key, None);
    app.saved(AfterSave::OpenMainTask(created), Ok(()));
    assert_eq!(app.expanded_task_key, Some(created));
    assert!(app.data.get_task(created).is_some());
}

#[test]
fn a_task_needs_a_list() {
    let mut app = app();
    assert!(app.data.delete_task_list(1, today()));
    assert!(app.data.delete_task_list(2, today()));
    idle(&mut app, KeyCode::Char('n'));
    assert_eq!(
        app.popup_messages,
        vec!["no task list available for new task"]
    );
}

#[test]
fn a_task_that_is_not_saved_is_not_opened() {
    let mut app = app();
    let effect = press(&mut app, KeyCode::Char('n'));
    match effect {
        Effect::Save(after) => app.saved(after, Err("no space".to_string())),
        other => panic!("{:?}", other),
    }
    assert_eq!(app.expanded_task_key, None);
    assert_eq!(app.popup_messages, vec!["failed to create task: no space"]);
}

#[test]
fn notes_are_edited_outside() {
    let mut app = app();
    let text = match press(&mut app, KeyCode::Char('o')) {
        Effect::EditText(TextPurpose::Notes, text) => text,
        other => panic!("{:?}", other),
    };
    assert!(text.ends_with("# ----- end life-tracking help -----\n\nsome notes"));
    assert_eq!(TextPurpose::Notes.file_stem(), "notes");
    let edited = text.replace("some", "other");
    let written = match app.text_edited(TextPurpose::Notes, Ok(edited), today()) {
        Effect::WriteNotes(written) => written,
        other => panic!("{:?}", other),
    };
    assert_eq!(written, "other notes");
    app.notes_written(written, Ok(()));
    assert_eq!(app.notes_text, "other notes");
    app.notes_written("lost".to_string(), Err("read-only".to_string()));
    assert_eq!(app.notes_text, "other notes");
    assert_eq!(app.popup_messages, vec!["failed to save notes: read-only"]);
}

#[test]
fn a_description_is_edited_outside() {
    let mut app = app();
    idle(&mut app, KeyCode::Enter);
    let purpose = TextPurpose::Description(key(1, 1));
    match press(&mut app, KeyCode::Char('d')) {
        Effect::EditText(p, text) => {
            assert_eq!(p, purpose);
            assert_eq!(p.file_stem(), "description");
            assert!(text.starts_with(
                "# ----- life-tracking help -----\n# Task description editor\n#\n"
            ));
            assert!(text.ends_with("about one"));
        }
        other => panic!("{:?}", other),
    }
    let effect = app.text_edited(purpose, Ok("first\nsecond\n".to_string()), today());
    assert!(matches!(effect, Effect::Save(AfterSave::Report)));
    assert_eq!(
        app.data.get_task(key(1, 1)).expect("task").description,
        "first\nsecond"
    );
    let effect = app.text_edited(purpose, Err("not found".to_string()), today());
    assert!(matches!(effect, Effect::Idle));
    assert_eq!(app.popup_messages, vec!["failed to open vim: not found"]);
}

#[test]
fn lists_are_selected_opened_and_created() {
    let mut app = app();
    idle(&mut app, KeyCode::Char('u'));
    assert_eq!(app.page, Page::TaskLists);
    idle(&mut app, KeyCode::Char('j'));
    assert_eq!(app.selected_list_idx, 1);
    idle(&mut app, KeyCode::Char('x'));
    assert_eq!(app.list_sort_mode, ListSortMode::Priority);
    assert_eq!(app.selected_list_idx, 0);
    idle(&mut app, KeyCode::Char('c'));
    assert!(app.list_sort_reversed);
    idle(&mut app, KeyCode::Enter);
    assert_eq!(app.expanded_list_id, Some(1));
    idle(&mut app, KeyCode::Esc);
    assert_eq!(app.expanded_list_id, None);
    let effect = press(&mut app, KeyCode::Char('n'));
    assert!(matches!(effect, Effect::Save(AfterSave::OpenList(3))));
    app.saved(AfterSave::OpenList(3), Ok(()));
    assert_eq!(app.expanded_list_id, Some(3));
    assert_eq!(app.selected_list_idx, 1);
    idle(&mut app, KeyCode::Esc);
    idle(&mut app, KeyCode::Char('u'));
    assert_eq!(app.page, Page::Main);
}

#[test]
fn a_list_that_is_not_saved_is_not_opened() {
    let mut app = app();
    idle(&mut app, KeyCode::Char('u'));
    match press(&mut app, KeyCode::Char('n')) {
        Effect::Save(after) => app.saved(after, Err("no space".to_string())),
        other => panic!("{:?}", other),
    }
    assert_eq!(app.expanded_list_id, None);
    assert_eq!(
        app.popup_messages,
        vec!["failed to create task list: no space"]
    );
}

#[test]
fn lists_are_searched() {
    let mut app = app();
    idle(&mut app, KeyCode::Char('u'));
    idle(&mut app, KeyCode::Char('/'));
    chars(&mut app, "HO");
    let names: Vec<String> = app
        .filtered_task_list_items()
        .into_iter()
        .map(|item| item.name)
        .collect();
    assert_eq!(names, vec!["Home"]);
    idle(&mut app, KeyCode::Enter);
    assert!(!app.list_search_active);
    idle(&mut app, KeyCode::Char('/'));
    idle(&mut app, KeyCode::Esc);
    assert_eq!(app.filtered_task_list_items().len(), 2);
}

#[test]
fn a_list_is_deleted_with_its_tasks() {
    let mut app = app();
    idle(&mut app, KeyCode::Char('u'));
    idle(&mut app, KeyCode::Char('d'));
    let question = app.confirm.as_ref().expect("question");
    assert_eq!(question.message, "Delete task list 'Work' and all its tasks?");
    assert!(matches!(question.action, ConfirmAction::DeleteList(1)));
    saves(&mut app, KeyCode::Char('y'));
    assert!(app.data.get_list(1).is_none());
    assert_eq!(app.main_items().len(), 1);
}

#[test]
fn the_fields_of_a_list_are_edited() {
    let mut app = app();
    idle(&mut app, KeyCode::Char('u'));
    idle(&mut app, KeyCode::Enter);
    idle(&mut app, KeyCode::Char('t'));
    chars(&mut app, "shop");
    saves(&mut app, KeyCode::Enter);
    idle(&mut app, KeyCode::Char('p'));
    chars(&mut app, "x5");
    assert_eq!(editor_text(&app), "25");
    saves(&mut app, KeyCode::Enter);
    idle(&mut app, KeyCode::Char('p'));
    chars(&mut app, "6");
    idle(&mut app, KeyCode::Enter);
    idle(&mut app, KeyCode::Char('q'));
    chars(&mut app, "0");
    assert_eq!(editor_text(&app), "#4DA3FF");
    idle(&mut app, KeyCode::Backspace);
    chars(&mut app, "g0");
    assert_eq!(editor_text(&app), "#4DA3F0");
    saves(&mut app, KeyCode::Enter);
    let list = app.data.get_list(1).expect("list");
    assert_eq!(list.name, "Workshop");
    assert_eq!(list.priority, 25);
    assert_eq!(list.color_hex, "#4DA3F0");
}

#[test]
fn a_new_task_in_an_open_list_is_opened() {
    let mut app = app();
    idle(&mut app, KeyCode::Char('u'));
    idle(&mut app, KeyCode::Enter);
    let effect = press(&mut app, KeyCode::Char('n'));
    assert!(matches!(effect, Effect::Save(AfterSave::OpenListTask(k)) if k == key(1, 4)));
    app.saved(AfterSave::OpenListTask(key(1, 4)), Ok(()));
    assert_eq!(app.expanded_task_key, Some(key(1, 4)));
    assert_eq!(app.expanded_list_id, Some(1));
}

#[test]
fn several_tasks_are_selected_and_dated() {
    let mut app = app();
    idle(&mut app, KeyCode::Char('J'));
    assert_eq!(app.multi_selected_tasks, vec![key(1, 1), key(1, 2)]);
    let shifted = KeyPress {
        code: KeyCode::Down,
        shift: true,
        control: false,
    };
    assert!(app.press(shifted, today()).is_some());
    assert_eq!(app.multi_selected_tasks.len(), 3);
    idle(&mut app, KeyCode::Char('K'));
    assert_eq!(app.multi_selected_tasks.len(), 2);
    idle(&mut app, KeyCode::Enter);
    let state = app.multi_task_edit.as_ref().expect("multi");
    assert_eq!(state.mode, MultiTaskEditMode::Menu);
    assert_eq!(state.keys, vec![key(1, 1), key(1, 2)]);
    idle(&mut app, KeyCode::Char('r'));
    chars(&mut app, "2026-04-3a1");
    idle(&mut app, KeyCode::Enter);
    assert_eq!(
        app.popup_messages,
        vec!["invalid due date format; use YYYY-MM-DD"]
    );
    idle(&mut app, KeyCode::Backspace);
    chars(&mut app, "0");
    saves(&mut app, KeyCode::Enter);
    assert!(app.multi_task_edit.is_none());
    assert!(app.multi_selected_tasks.is_empty());
    for task_id in [1, 2] {
        assert_eq!(
            app.data.get_task(key(1, task_id)).expect("task").due_date,
            day(2026, 4, 30)
        );
    }
}

#[test]
fn several_tasks_are_moved_or_deleted() {
    let mut app = app();
    idle(&mut app, KeyCode::Char('J'));
    idle(&mut app, KeyCode::Enter);
    idle(&mut app, KeyCode::Char('l'));
    chars(&mut app, "zzz");
    idle(&mut app, KeyCode::Enter);
    assert!(app.multi_task_edit.is_some());
    for _ in 0..3 {
        idle(&mut app, KeyCode::Backspace);
    }
    chars(&mut app, "ome");
    saves(&mut app, KeyCode::Enter);
    assert_eq!(app.data.get_list(2).expect("list").tasks.len(), 3);

    idle(&mut app, KeyCode::Char('J'));
    idle(&mut app, KeyCode::Enter);
    idle(&mut app, KeyCode::Char('d'));
    assert_eq!(
        app.confirm.as_ref().expect("question").message,
        "Delete 2 selected tasks?"
    );
    saves(&mut app, KeyCode::Enter);
    assert_eq!(app.data.get_list(2).expect("list").tasks.len(), 1);
}

#[test]
fn the_menu_for_several_tasks_is_left_step_by_step() {
    let mut app = app();
    idle(&mut app, KeyCode::Char('J'));
    idle(&mut app, KeyCode::Enter);
    idle(&mut app, KeyCode::Char('l'));
    idle(&mut app, KeyCode::Down);
    idle(&mut app, KeyCode::Down);
    assert_eq!(
        app.multi_task_edit.as_ref().expect("multi").suggestion_index,
        1
    );
    idle(&mut app, KeyCode::Esc);
    assert_eq!(
        app.multi_task_edit.as_ref().expect("multi").mode,
        MultiTaskEditMode::Menu
    );
    idle(&mut app, KeyCode::Esc);
    assert!(app.multi_task_edit.is_none());
}

#[test]
fn a_selection_that_begins_outside_the_rows_is_not_extended() {
    let mut app = app();
    idle(&mut app, KeyCode::Char('j'));
    idle(&mut app, KeyCode::Char('j'));
    idle(&mut app, KeyCode::Char('K'));
    assert_eq!(app.task_selection_anchor, Some(2));
    idle(&mut app, KeyCode::Char('/'));
    chars(&mut app, "one");
    idle(&mut app, KeyCode::Enter);
    assert!(!app.accepts(plain(KeyCode::Char('J'))));
    assert!(app.press(plain(KeyCode::Char('J')), today()).is_none());
    assert_eq!(app.task_selection_anchor, Some(2));
    idle(&mut app, KeyCode::Char('j'));
    assert!(app.accepts(plain(KeyCode::Char('J'))));
}

#[test]
fn a_task_goes_to_the_list_with_just_the_name_that_is_selected() {
    let files = vec![
        list(1, "Work", 2, vec![]),
        list(2, "WORK", 3, vec![]),
        list(3, "Home", 1, vec![task(1, "one", day(2026, 3, 1))]),
    ];
    let (data, messages) = AppData::load_from_dir(files, today());
    let mut app = App::new(data, messages, String::new());
    idle(&mut app, KeyCode::Enter);
    idle(&mut app, KeyCode::Char('l'));
    for _ in 0..4 {
        idle(&mut app, KeyCode::Backspace);
    }
    chars(&mut app, "work");
    assert_eq!(app.data.list_name_suggestions("work"), vec!["WORK", "Work"]);
    saves(&mut app, KeyCode::Enter);
    assert!(app.data.get_task(key(2, 1)).is_some());
    assert!(app.data.get_list(1).expect("list").tasks.is_empty());
    assert_eq!(app.data.find_list_id_by_name("WORK"), Some(1));
    assert_eq!(app.data.find_list_id_by_just_name("WORK"), Some(2));
    assert_eq!(app.data.find_list_id_by_just_name("wORK"), None);
}

#[test]
fn the_row_that_is_selected_is_the_one_deleted_after_a_move() {
    let files = vec![
        list(1, "Work", 2, vec![task(1, "A", today())]),
        list(2, "Home", 1, vec![task(1, "B", today())]),
    ];
    let (mut data, messages) = AppData::load_from_dir(files, today());
    assert!(data.move_task_to_list(key(1, 1), 2, today()));
    let mut app = App::new(data, messages, String::new());
    assert_eq!(app.main_items()[0].title, "A");
    idle(&mut app, KeyCode::Delete);
    saves(&mut app, KeyCode::Enter);
    let left: Vec<String> = app.main_items().into_iter().map(|item| item.title).collect();
    assert_eq!(left, vec!["B"]);
}
