use life_tracking::store::{ConfigContent, ConfigFile};
use life_tracking::{AppData, Date, ListSortMode, Task, TaskList, TaskSortMode};

fn day(day: u32) -> Date {
    Date::from_ymd(2026, 3, day).expect("valid date")
}

fn task(id: u64, title: &str, due_date: Date, estimated: u32, actual: u32) -> Task {
    Task {
        id,
        title: title.to_string(),
        description: String::new(),
        due_date,
        estimated_minutes: estimated,
        actual_minutes: actual,
        completed: false,
        completed_on: None,
    }
}

fn data(lists: Vec<(&str, u8, Vec<Task>)>) -> AppData {
    let mut files = Vec::new();
    for (name, priority, tasks) in lists {
        files.push(ConfigFile {
            name: format!("{}.toml", name),
            content: ConfigContent::List(TaskList {
                id: 0,
                name: name.to_string(),
                priority,
                color_hex: "#4DA3FF".to_string(),
                tasks,
            }),
        });
    }
    AppData::load_from_dir(files, day(2)).0
}

fn list_names(data: &AppData, mode: ListSortMode) -> Vec<String> {
    data.task_list_items(mode)
        .into_iter()
        .map(|item| item.name)
        .collect()
}

fn titles(data: &AppData, query: &str, mode: TaskSortMode, reversed: bool) -> Vec<String> {
    data.main_task_items(query, mode, reversed, true)
        .into_iter()
        .map(|item| item.title)
        .collect()
}

#[test]
fn lists_are_ordered_by_open_tasks_or_priority_and_then_by_name() {
    let data = data(vec![
        ("beta", 2, vec![task(0, "x", day(2), 1, 0)]),
        ("Alpha", 2, vec![task(0, "y", day(2), 1, 0)]),
        (
            "gamma",
            3,
            vec![task(0, "z", day(2), 1, 0), task(0, "w", day(2), 1, 0)],
        ),
        ("delta", 1, vec![]),
    ]);
    assert_eq!(
        list_names(&data, ListSortMode::RemainingCount),
        vec!["gamma", "Alpha", "beta", "delta"]
    );
    assert_eq!(
        list_names(&data, ListSortMode::Priority),
        vec!["delta", "Alpha", "beta", "gamma"]
    );
}

#[test]
fn rows_of_lists_count_their_tasks() {
    let mut data = data(vec![(
        "Work",
        4,
        vec![task(0, "x", day(2), 1, 0), task(0, "y", day(2), 1, 0)],
    )]);
    let key = life_tracking::TaskKey {
        list_id: 1,
        task_id: 2,
    };
    assert!(data.toggle_task_completed(key, day(2)));
    let items = data.task_list_items(ListSortMode::Priority);
    assert_eq!(items.len(), 1);
    assert_eq!(items[0].list_id, 1);
    assert_eq!(items[0].priority, 4);
    assert_eq!(items[0].color_hex, "#4DA3FF");
    assert_eq!((items[0].total_items, items[0].remaining_items), (2, 1));
}

#[test]
fn equal_rows_keep_their_order() {
    let data = data(vec![
        ("b", 1, vec![task(0, "Same", day(2), 1, 0)]),
        ("a", 1, vec![task(0, "same", day(2), 1, 0)]),
    ]);
    for reversed in [false, true] {
        assert_eq!(
            titles(&data, "", TaskSortMode::TimeLeft, reversed),
            vec!["Same", "same"]
        );
    }
    assert_eq!(
        titles(&data, "", TaskSortMode::DueDate, false),
        vec!["Same", "same"]
    );
}

#[test]
fn the_order_by_time_left_is_turned_round() {
    let data = data(vec![(
        "Work",
        1,
        vec![
            task(0, "b", day(2), 5, 4),
            task(0, "a", day(2), 5, 4),
            task(0, "c", day(2), 9, 1),
            task(0, "d", day(2), 0, 3),
        ],
    )]);
    assert_eq!(
        titles(&data, "", TaskSortMode::TimeLeft, false),
        vec!["c", "a", "b", "d"]
    );
    assert_eq!(
        titles(&data, "", TaskSortMode::TimeLeft, true),
        vec!["d", "b", "a", "c"]
    );
}

#[test]
fn the_case_of_letters_does_not_matter_to_a_search() {
    let data = data(vec![(
        "Work",
        1,
        vec![
            task(0, "\u{c4}rger", day(2), 1, 0),
            task(0, "Run", day(3), 1, 0),
        ],
    )]);
    assert_eq!(
        titles(&data, " \u{e4}RG ", TaskSortMode::DueDate, false),
        vec!["\u{c4}rger"]
    );
    assert_eq!(titles(&data, "rUN", TaskSortMode::DueDate, false), vec!["Run"]);
    assert_eq!(
        titles(&data, "-03-03", TaskSortMode::DueDate, false),
        vec!["Run"]
    );
    assert_eq!(titles(&data, "WORK", TaskSortMode::DueDate, false).len(), 2);
    assert!(titles(&data, "rest", TaskSortMode::DueDate, false).is_empty());
}

#[test]
fn suggestions_are_ordered_by_their_characters() {
    let data = data(vec![
        ("b", 1, vec![]),
        ("a", 1, vec![]),
        ("B", 1, vec![]),
        ("\u{d6}l", 1, vec![]),
    ]);
    assert_eq!(data.list_name_suggestions(" "), vec!["B", "a", "b", "\u{d6}l"]);
    assert_eq!(data.list_name_suggestions("B "), vec!["B", "b"]);
    assert_eq!(data.list_name_suggestions("\u{f6}"), vec!["\u{d6}l"]);
    assert_eq!(data.find_list_id_by_name("\u{f6}l"), None);
    assert_eq!(
        data.find_list_id_by_name("B"),
        data.find_list_id_by_name("b")
    );
}

#[test]
fn the_time_left_is_ordered_by_the_whole_difference() {
    let data = data(vec![(
        "Work",
        1,
        vec![
            task(0, "small", day(2), 5, 0),
            task(0, "huge", day(2), u32::MAX, 0),
            task(0, "spent", day(2), 0, u32::MAX),
        ],
    )]);
    assert_eq!(
        titles(&data, "", TaskSortMode::TimeLeft, false),
        vec!["huge", "small", "spent"]
    );
}
