use life_tracking::store::{ConfigContent, ConfigFile};
use life_tracking::{AppData, Date, Task, TaskKey, TaskList, TaskSortMode};

fn day(year: i32, month: u32, day: u32) -> Date {
    Date::from_ymd(year, month, day).expect("valid date")
}

fn today() -> Date {
    day(2026, 3, 2)
}

fn task(id: u64, title: &str, due_date: Date) -> Task {
    Task {
        id,
        title: title.to_string(),
        description: format!("about {}", title),
        due_date,
        estimated_minutes: 5,
        actual_minutes: 2,
        completed: false,
        completed_on: None,
    }
}

fn list(id: u64, name: &str, tasks: Vec<Task>) -> TaskList {
    TaskList {
        id,
        name: name.to_string(),
        priority: 1,
        color_hex: "#4DA3FF".to_string(),
        tasks,
    }
}

fn key(list_id: u64, task_id: u64) -> TaskKey {
    TaskKey { list_id, task_id }
}

fn sample() -> AppData {
    let lists = vec![
        list(
            1,
            "Work",
            vec![
                task(1, "one", day(2026, 3, 1)),
                task(2, "two", day(2026, 3, 2)),
            ],
        ),
        list(2, "Home", vec![task(3, "three", day(2026, 3, 3))]),
        list(3, "Other", vec![]),
    ];
    let files = lists
        .into_iter()
        .map(|list| ConfigFile {
            name: format!("{}.toml", list.id),
            content: ConfigContent::List(list),
        })
        .collect();
    AppData::load_from_dir(files, today()).0
}

fn titles(data: &AppData, list_id: u64) -> Vec<String> {
    data.get_list(list_id)
        .expect("list")
        .tasks
        .iter()
        .map(|task| task.title.clone())
        .collect()
}

#[test]
fn tasks_and_lists_are_found_by_their_numbers() {
    let data = sample();
    assert_eq!(data.get_task(key(1, 2)).map(|t| t.title.as_str()), Some("two"));
    assert!(data.get_task(key(2, 2)).is_none());
    assert!(data.get_task(key(9, 1)).is_none());
    assert_eq!(data.get_list(3).map(|l| l.name.as_str()), Some("Other"));
    assert!(data.get_list(4).is_none());
}

#[test]
fn toggling_twice_gives_the_task_back() {
    let mut data = sample();
    assert!(data.toggle_task_completed(key(1, 1), today()));
    assert!(data.get_task(key(1, 1)).expect("task").completed);
    assert!(data.toggle_task_completed(key(1, 1), day(2026, 3, 4)));
    assert_eq!(
        data.get_task(key(1, 1)),
        Some(&task(1, "one", day(2026, 3, 1)))
    );
    assert!(!data.toggle_task_completed(key(1, 7), today()));
}

#[test]
fn completed_tasks_go_after_more_than_a_week() {
    let mut data = sample();
    assert!(data.update_task_due_date(key(1, 1), day(2026, 2, 23), today()));
    assert!(data.toggle_task_completed(key(1, 1), today()));
    assert!(data.get_task(key(1, 1)).is_some());
    assert_eq!(data.prune_completed_overdue(today()), 0);
    assert_eq!(data.prune_completed_overdue(day(2026, 3, 3)), 1);
    assert!(data.get_task(key(1, 1)).is_none());
    assert_eq!(data.prune_completed_overdue(day(2030, 1, 1)), 0);
    assert_eq!(titles(&data, 1), vec!["two"]);
}

#[test]
fn every_edit_prunes() {
    let mut data = sample();
    assert!(data.toggle_task_completed(key(1, 1), today()));
    assert!(data.update_task_actual(key(2, 3), 9, day(2026, 4, 1)));
    assert_eq!(titles(&data, 1), vec!["two"]);
    assert_eq!(data.get_task(key(2, 3)).expect("task").actual_minutes, 9);
}

#[test]
fn titles_are_trimmed_and_not_blank() {
    let mut data = sample();
    assert!(data.update_task_title(key(1, 1), "  new \u{a0}".to_string(), today()));
    assert_eq!(data.get_task(key(1, 1)).expect("task").title, "new");
    assert!(!data.update_task_title(key(1, 1), " \t\n".to_string(), today()));
    assert_eq!(data.get_task(key(1, 1)).expect("task").title, "new");
    assert!(!data.update_task_title(key(5, 1), "x".to_string(), today()));
}

#[test]
fn other_fields_are_set() {
    let mut data = sample();
    assert!(data.update_task_description(key(1, 1), " as is ".to_string(), today()));
    assert!(data.update_task_estimated(key(1, 1), 40, today()));
    assert!(data.update_task_actual(key(1, 1), 50, today()));
    let edited = data.get_task(key(1, 1)).expect("task");
    assert_eq!(edited.description, " as is ");
    assert_eq!(edited.estimated_minutes, 40);
    assert_eq!(edited.actual_minutes, 50);
    assert_eq!(edited.time_left(), -10);
    assert_eq!(
        data.get_task(key(1, 2)),
        Some(&task(2, "two", day(2026, 3, 2)))
    );
}

#[test]
fn the_time_left_is_the_difference() {
    let mut one = task(1, "one", today());
    one.estimated_minutes = 90;
    one.actual_minutes = 20;
    assert_eq!(one.time_left(), 70);
    one.estimated_minutes = 0;
    one.actual_minutes = i32::MAX as u32;
    assert_eq!(one.time_left(), -i32::MAX);
    one.estimated_minutes = u32::MAX;
    one.actual_minutes = 0;
    assert_eq!(one.time_left(), -1);
}

#[test]
fn a_moved_task_stands_at_the_end_of_the_other_list() {
    let mut data = sample();
    assert!(data.move_task_to_list(key(1, 1), 2, today()));
    assert_eq!(titles(&data, 1), vec!["two"]);
    assert_eq!(titles(&data, 2), vec!["three", "one"]);
    assert!(data.move_task_to_list(key(1, 2), 3, today()));
    assert_eq!(titles(&data, 1), Vec::<String>::new());
    assert_eq!(titles(&data, 3), vec!["two"]);
    assert!(!data.move_task_to_list(key(2, 3), 2, today()));
    assert!(!data.move_task_to_list(key(2, 3), 9, today()));
    assert!(!data.move_task_to_list(key(2, 77), 1, today()));
}

#[test]
fn a_task_is_moved_to_a_list_before_its_own() {
    let mut data = sample();
    assert!(data.move_task_to_list(key(2, 3), 1, today()));
    assert_eq!(titles(&data, 1), vec!["one", "two", "three"]);
    assert_eq!(titles(&data, 2), Vec::<String>::new());
}

#[test]
fn new_tasks_and_lists_have_new_numbers() {
    let mut data = sample();
    assert!(data.can_create_task());
    let created = data.create_task_in_list(3, today()).expect("created");
    assert_eq!(created, key(3, 4));
    let new = data.get_task(created).expect("task");
    assert_eq!(new.title, "");
    assert_eq!(new.description, "");
    assert_eq!(new.due_date, today());
    assert_eq!((new.estimated_minutes, new.actual_minutes), (0, 0));
    assert!(!new.completed && new.completed_on.is_none());
    assert!(data.create_task_in_list(17, today()).is_none());

    assert!(data.can_create_list());
    assert_eq!(data.create_task_list(today()), 4);
    let new = data.get_list(4).expect("list");
    assert_eq!(new.name, "New List");
    assert_eq!(new.priority, 1);
    assert_eq!(new.color_hex, "#4DA3FF");
    assert!(new.tasks.is_empty());
    assert_eq!(data.create_task_list(today()), 5);
}

#[test]
fn deleted_tasks_and_lists_are_gone() {
    let mut data = sample();
    assert!(data.delete_task(key(1, 1), today()));
    assert!(data.get_task(key(1, 1)).is_none());
    assert_eq!(titles(&data, 1), vec!["two"]);
    assert!(!data.delete_task(key(1, 1), today()));
    assert!(data.delete_task_list(1, today()));
    assert!(data.get_list(1).is_none());
    assert!(!data.delete_task_list(1, today()));
    assert_eq!(titles(&data, 2), vec!["three"]);
}

#[test]
fn lists_are_renamed_ranked_and_colored() {
    let mut data = sample();
    assert!(data.update_list_name(1, " Office ".to_string(), today()));
    assert!(!data.update_list_name(1, "  ".to_string(), today()));
    assert!(data.update_list_priority(1, 9, today()));
    assert!(data.update_list_color(1, " ab12Cd ".to_string(), today()));
    assert!(!data.update_list_color(1, "#12345".to_string(), today()));
    let edited = data.get_list(1).expect("list");
    assert_eq!(edited.name, "Office");
    assert_eq!(edited.priority, 9);
    assert_eq!(edited.color_hex, "#AB12CD");
    assert!(!data.update_list_name(8, "x".to_string(), today()));
    assert!(!data.update_list_priority(8, 1, today()));
    assert!(!data.update_list_color(8, "#000000".to_string(), today()));
}

#[test]
fn several_tasks_are_edited_together() {
    let mut data = sample();
    let keys = vec![key(1, 1), key(2, 3), key(2, 9)];
    assert!(data.update_tasks_due_date(&keys, day(2026, 5, 1), today()));
    assert_eq!(data.get_task(key(1, 1)).expect("task").due_date, day(2026, 5, 1));
    assert_eq!(data.get_task(key(2, 3)).expect("task").due_date, day(2026, 5, 1));
    assert_eq!(data.get_task(key(1, 2)).expect("task").due_date, day(2026, 3, 2));

    assert!(data.move_tasks_to_list(&keys, 3, today()));
    assert_eq!(titles(&data, 3), vec!["one", "three"]);
    assert!(!data.move_tasks_to_list(&keys, 3, today()));

    assert!(data.delete_tasks(&vec![key(3, 1), key(1, 2)], today()));
    assert_eq!(titles(&data, 3), vec!["three"]);
    assert_eq!(titles(&data, 1), Vec::<String>::new());
    assert!(!data.delete_tasks(&vec![key(3, 1)], today()));
    assert!(!data.update_tasks_due_date(&Vec::new(), today(), today()));
}

#[test]
fn tasks_are_found_by_what_they_hold() {
    let mut data = sample();
    let find = |data: &AppData, query: &str| -> Vec<String> {
        data.main_task_items(query, TaskSortMode::DueDate, false, true)
            .into_iter()
            .map(|item| item.title)
            .collect()
    };
    assert_eq!(find(&data, ""), vec!["one", "two", "three"]);
    assert_eq!(find(&data, "  TWO "), vec!["two"]);
    assert_eq!(find(&data, "about t"), vec!["two", "three"]);
    assert_eq!(find(&data, "home"), vec!["three"]);
    assert_eq!(find(&data, "2026-03-01"), vec!["one"]);
    assert_eq!(find(&data, "nothing"), Vec::<String>::new());

    assert!(data.update_task_title(key(1, 1), "\u{c4}PFEL".to_string(), today()));
    assert_eq!(find(&data, "\u{e4}pfel"), vec!["\u{c4}PFEL"]);
}

#[test]
fn completed_tasks_are_hidden_by_due_date_only() {
    let mut data = sample();
    assert!(data.toggle_task_completed(key(1, 1), today()));
    let count = |mode: TaskSortMode, show: bool| data.main_task_items("", mode, false, show).len();
    assert_eq!(count(TaskSortMode::DueDate, true), 3);
    assert_eq!(count(TaskSortMode::DueDate, false), 2);
    assert_eq!(count(TaskSortMode::TimeLeft, false), 3);
}

#[test]
fn rows_of_one_list_hold_what_the_list_contributes() {
    let data = sample();
    let items = data.list_task_items(2, "", TaskSortMode::TimeLeft, false, true);
    assert_eq!(items.len(), 1);
    assert_eq!(items[0].key, key(2, 3));
    assert_eq!(items[0].list_name, "Home");
    assert_eq!(items[0].list_priority, 1);
    assert_eq!(items[0].list_color_hex, "#4DA3FF");
    assert_eq!(items[0].time_left, 3);
    assert!(data
        .list_task_items(8, "", TaskSortMode::TimeLeft, false, true)
        .is_empty());
}

fn twins() -> AppData {
    let lists = vec![
        list(1, "Work", vec![task(1, "A", today()), task(2, "C", today())]),
        list(2, "Home", vec![task(1, "B", today()), task(2, "D", today())]),
    ];
    let files = lists
        .into_iter()
        .map(|list| ConfigFile {
            name: format!("{}.toml", list.id),
            content: ConfigContent::List(list),
        })
        .collect();
    AppData::load_from_dir(files, today()).0
}

fn numbers(data: &AppData, list_id: u64) -> Vec<u64> {
    data.get_list(list_id)
        .expect("list")
        .tasks
        .iter()
        .map(|task| task.id)
        .collect()
}

#[test]
fn a_moved_task_gets_another_number_where_its_own_is_held() {
    let mut data = twins();
    assert!(data.move_task_to_list(key(1, 1), 2, today()));
    assert_eq!(titles(&data, 2), vec!["B", "D", "A"]);
    assert_eq!(numbers(&data, 2), vec![1, 2, 3]);
    assert!(data.toggle_task_completed(key(2, 3), today()));
    assert!(!data.get_task(key(2, 1)).expect("task").completed);
    assert!(data.delete_task(key(2, 1), today()));
    assert_eq!(titles(&data, 2), vec!["D", "A"]);
    let created = data.create_task_in_list(1, today()).expect("created");
    assert_eq!(created, key(1, 4));
}

#[test]
fn tasks_that_are_moved_together_keep_numbers_of_their_own() {
    let mut data = twins();
    assert!(data.move_tasks_to_list(&vec![key(1, 2), key(1, 1)], 2, today()));
    assert_eq!(titles(&data, 2), vec!["B", "D", "C", "A"]);
    assert_eq!(numbers(&data, 2), vec![1, 2, 3, 4]);
    assert!(data.delete_tasks(&vec![key(2, 1), key(2, 4)], today()));
    assert_eq!(titles(&data, 2), vec!["D", "C"]);
}

#[test]
fn a_moved_task_keeps_a_number_that_is_free() {
    let mut data = sample();
    assert!(data.move_task_to_list(key(1, 2), 2, today()));
    assert_eq!(numbers(&data, 2), vec![3, 2]);
    let created = data.create_task_in_list(2, today()).expect("created");
    assert_eq!(created.task_id, 4);
}

#[test]
fn pruning_on_two_days_is_pruning_on_the_later() {
    let mut twice = sample();
    let mut once = sample();
    for data in [&mut twice, &mut once] {
        for task_id in [1, 2] {
            assert!(data.toggle_task_completed(key(1, task_id), today()));
        }
    }
    let first = twice.prune_completed_overdue(day(2026, 3, 9));
    let second = twice.prune_completed_overdue(day(2026, 3, 10));
    assert_eq!((first, second), (1, 1));
    assert_eq!(once.prune_completed_overdue(day(2026, 3, 10)), 2);
    assert_eq!(twice.lists, once.lists);
}
