use life_tracking::store::{ConfigContent, ConfigFile};
use life_tracking::{AppData, Date, Task, TaskKey, TaskList, TaskSortMode};

fn day(year: i32, month: u32, day: u32) -> Date {
    Date::from_ymd(year, month, day).expect("valid date")
}

fn task(title: &str, due_date: Date, estimated: u32, actual: u32) -> Task {
    Task {
        id: 0,
        title: title.to_string(),
        description: String::new(),
        due_date,
        estimated_minutes: estimated,
        actual_minutes: actual,
        completed: false,
        completed_on: None,
    }
}

fn list(name: &str, priority: u8, tasks: Vec<Task>) -> TaskList {
    TaskList {
        id: 0,
        name: name.to_string(),
        priority,
        color_hex: "#4DA3FF".to_string(),
        tasks,
    }
}

fn file(name: &str, list: TaskList) -> ConfigFile {
    ConfigFile {
        name: name.to_string(),
        content: ConfigContent::List(list),
    }
}

fn valid_list() -> TaskList {
    list(
        "Work",
        1,
        vec![task("Draft roadmap", day(2026, 3, 4), 120, 30)],
    )
}

fn multi_list() -> TaskList {
    list(
        "Alpha",
        2,
        vec![
            task("Later by priority", day(2026, 3, 5), 60, 30),
            task("High time left", day(2026, 3, 6), 300, 10),
        ],
    )
}

fn multi_list_priority() -> TaskList {
    list(
        "Beta",
        1,
        vec![
            task("Earlier by priority", day(2026, 3, 5), 60, 20),
            task("Low time left", day(2026, 3, 7), 10, 60),
        ],
    )
}

fn task_key_by_names(data: &AppData, list_name: &str, task_title: &str) -> TaskKey {
    let list = data
        .lists
        .iter()
        .find(|list| list.name == list_name)
        .expect("list should exist");
    let task = list
        .tasks
        .iter()
        .find(|task| task.title == task_title)
        .expect("task should exist");
    TaskKey {
        list_id: list.id,
        task_id: task.id,
    }
}

#[test]
fn load_reports_invalid_config_and_keeps_valid_config() {
    let files = vec![
        ConfigFile {
            name: "invalid.toml".to_string(),
            content: ConfigContent::InvalidToml("expected a value".to_string()),
        },
        file("valid.toml", valid_list()),
    ];
    let (data, startup_messages) = AppData::load_from_dir(files, day(2026, 3, 2));

    assert!(data.lists.iter().any(|list| list.name == "Work"));
    assert!(
        startup_messages
            .iter()
            .any(|message| message.contains("invalid.toml") && message.contains("invalid"))
    );

    let present = vec!["invalid.toml".to_string(), "valid.toml".to_string()];
    let plan = data.save_all(&present);
    let generated_files: Vec<_> = plan
        .writes
        .iter()
        .filter(|name| name.starts_with("list_") && name.ends_with(".toml"))
        .collect();
    assert_eq!(generated_files.len(), 1);
    assert!(plan.removes.is_empty());
}

#[test]
fn sorts_tasks_by_due_date_priority_and_time_left() {
    let files = vec![
        file("alpha.toml", multi_list()),
        file("beta.toml", multi_list_priority()),
    ];
    let (data, _) = AppData::load_from_dir(files, day(2026, 3, 2));

    let due_items = data.main_task_items("", TaskSortMode::DueDate, false, true);
    assert_eq!(due_items[0].title, "Earlier by priority");
    assert_eq!(due_items[1].title, "Later by priority");

    let time_left_items = data.main_task_items("", TaskSortMode::TimeLeft, false, true);
    assert_eq!(time_left_items[0].title, "High time left");

    let time_left_reversed = data.main_task_items("", TaskSortMode::TimeLeft, true, true);
    assert_eq!(time_left_reversed[0].title, "Low time left");
}

#[test]
fn supports_case_insensitive_list_suggestions() {
    let files = vec![
        file("alpha.toml", multi_list()),
        file("valid.toml", valid_list()),
    ];
    let (data, _) = AppData::load_from_dir(files, day(2026, 3, 2));

    let suggestions = data.list_name_suggestions("wo");
    assert!(suggestions.iter().any(|value| value == "Work"));

    assert!(data.find_list_id_by_name("work").is_some());
}

#[test]
fn prunes_completed_tasks_older_than_one_week_past_due_on_load() {
    let mut gone = task("Remove this", day(2026, 2, 1), 10, 10);
    gone.completed = true;
    gone.completed_on = Some(day(2026, 2, 1));
    let mut kept = task("Keep this", day(2026, 2, 27), 10, 10);
    kept.completed = true;
    let files = vec![file("prune.toml", list("Archive", 1, vec![gone, kept]))];
    let (data, startup_messages) = AppData::load_from_dir(files, day(2026, 3, 2));

    let archive = data
        .lists
        .iter()
        .find(|list| list.name == "Archive")
        .expect("archive list should exist");

    assert_eq!(archive.tasks.len(), 1);
    assert_eq!(archive.tasks[0].title, "Keep this");
    assert!(
        startup_messages
            .iter()
            .any(|message| message.contains("Removed 1"))
    );
}

#[test]
fn toggling_completion_sets_completed_date() {
    let (mut data, _) =
        AppData::load_from_dir(vec![file("valid.toml", valid_list())], day(2026, 3, 2));
    let key = task_key_by_names(&data, "Work", "Draft roadmap");

    let today = day(2026, 3, 2);
    assert!(data.toggle_task_completed(key, today));

    let task = data.get_task(key).expect("task should exist");
    assert!(task.completed);
    assert_eq!(task.completed_on, Some(today));
    assert_eq!(data.save_all(&Vec::new()).writes, vec!["list_1.toml"]);
}

#[test]
fn updating_due_date_changes_the_task() {
    let (mut data, _) =
        AppData::load_from_dir(vec![file("valid.toml", valid_list())], day(2026, 3, 2));
    let key = task_key_by_names(&data, "Work", "Draft roadmap");

    let today = day(2026, 3, 2);
    let new_due_date = day(2026, 3, 10);
    assert!(data.update_task_due_date(key, new_due_date, today));

    let task = data.get_task(key).expect("task should exist");
    assert_eq!(task.due_date, new_due_date);
    assert_eq!(task.due_date.to_text(), "2026-03-10");
}
