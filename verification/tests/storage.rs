use life_tracking::directory::{data_dir_choice, DirBase};
use life_tracking::store::{
    config_files, do_files_fit, generated_list_file_name, seeded_lists, validate_task_list,
    ConfigContent, ConfigFile,
};
use life_tracking::{AppData, Date, Task, TaskList};

fn today() -> Date {
    Date::from_ymd(2026, 3, 2).expect("valid date")
}

fn task(id: u64, title: &str) -> Task {
    Task {
        id,
        title: title.to_string(),
        description: String::new(),
        due_date: today(),
        estimated_minutes: 0,
        actual_minutes: 0,
        completed: false,
        completed_on: None,
    }
}

fn list(id: u64, name: &str, color: &str, tasks: Vec<Task>) -> TaskList {
    TaskList {
        id,
        name: name.to_string(),
        priority: 1,
        color_hex: color.to_string(),
        tasks,
    }
}

fn file(name: &str, content: ConfigContent) -> ConfigFile {
    ConfigFile {
        name: name.to_string(),
        content,
    }
}

fn names(values: &[&str]) -> Vec<String> {
    values.iter().map(|value| value.to_string()).collect()
}

#[test]
fn config_files_are_read_in_the_order_of_their_names() {
    let present = names(&[
        "list_2.toml",
        "notes.txt",
        "list_10.toml",
        ".toml",
        "B.toml",
        "a.toml",
        "x.TOML",
    ]);
    let order: Vec<&str> = config_files(&present)
        .into_iter()
        .map(|i| present[i].as_str())
        .collect();
    assert_eq!(order, vec!["B.toml", "a.toml", "list_10.toml", "list_2.toml"]);
}

#[test]
fn lists_without_name_or_color_are_refused() {
    assert_eq!(validate_task_list(&list(1, "Work", " 4da3ff", vec![])), Ok(()));
    assert_eq!(
        validate_task_list(&list(1, " \t", "#4DA3FF", vec![])),
        Err("task list name must not be empty".to_string())
    );
    assert_eq!(
        validate_task_list(&list(1, "Work", "#4DA3FG", vec![])),
        Err("task list color_hex must be a valid #RRGGBB value".to_string())
    );
}

#[test]
fn each_faulty_file_is_told_of() {
    let files = vec![
        file("a.toml", ConfigContent::Unreadable("no access".to_string())),
        file("b.toml", ConfigContent::InvalidToml("bad line".to_string())),
        file(
            "c.toml",
            ConfigContent::List(list(0, "", "#4DA3FF", vec![])),
        ),
        file(
            "d.toml",
            ConfigContent::List(list(0, "Work", "blue", vec![])),
        ),
        file(
            "e.toml",
            ConfigContent::List(list(0, "Home", "#000000", vec![])),
        ),
    ];
    assert!(do_files_fit(&files));
    let (data, messages) = AppData::load_from_dir(files, today());
    assert_eq!(
        messages,
        names(&[
            "Config 'a.toml' could not be read: no access",
            "Config 'b.toml' has invalid TOML: bad line",
            "Config 'c.toml' invalid: task list name must not be empty",
            "Config 'd.toml' invalid: task list color_hex must be a valid #RRGGBB value",
        ])
    );
    assert_eq!(data.lists.len(), 1);
    assert_eq!(data.lists[0].name, "Home");
    assert_eq!(data.lists[0].id, 1);
}

#[test]
fn there_are_lists_to_begin_with() {
    let (data, messages) = AppData::load_from_dir(Vec::new(), today());
    assert!(messages.is_empty());
    assert_eq!(data.lists, seeded_lists(today()));
    let summary: Vec<(u64, &str, u8, &str)> = data
        .lists
        .iter()
        .map(|l| (l.id, l.name.as_str(), l.priority, l.color_hex.as_str()))
        .collect();
    assert_eq!(
        summary,
        vec![
            (1, "Work", 1, "#4DA3FF"),
            (2, "Health", 2, "#44C777"),
            (3, "Home", 3, "#D67AFF"),
        ]
    );
    let hinge = &data.lists[2].tasks[0];
    assert_eq!(hinge.title, "Fix cabinet hinge");
    assert_eq!(hinge.description, "Tighten screws and realign cabinet door.");
    assert_eq!(hinge.due_date.to_text(), "2026-03-04");
    assert_eq!(data.lists[1].tasks[0].due_date.to_text(), "2026-03-03");
    assert_eq!(data.lists[0].tasks[0].time_left(), 70);
}

#[test]
fn the_last_day_has_no_days_after_it() {
    let last = Date::from_ymd(262_142, 12, 31).expect("valid date");
    let lists = seeded_lists(last);
    assert_eq!(lists[1].tasks[0].due_date, last);
    assert_eq!(lists[2].tasks[0].due_date, last);
}

#[test]
fn numbers_that_are_taken_are_replaced() {
    let files = vec![
        file(
            "a.toml",
            ConfigContent::List(list(
                5,
                "A",
                "#000000",
                vec![task(3, "x"), task(3, "y"), task(0, "z"), task(1, "w")],
            )),
        ),
        file("b.toml", ConfigContent::List(list(5, "B", "#000000", vec![]))),
        file("c.toml", ConfigContent::List(list(0, "C", "#000000", vec![]))),
        file("d.toml", ConfigContent::List(list(2, "D", "#000000", vec![]))),
    ];
    let (mut data, messages) = AppData::load_from_dir(files, today());
    let ids: Vec<u64> = data.lists.iter().map(|list| list.id).collect();
    assert_eq!(ids, vec![5, 6, 7, 2]);
    let task_ids: Vec<u64> = data.lists[0].tasks.iter().map(|task| task.id).collect();
    assert_eq!(task_ids, vec![3, 4, 5, 1]);
    assert_eq!(
        messages,
        names(&[
            "Duplicate task id 3 detected in list 'A'; reassigned 'y' to id 4.",
            "Duplicate task list id 5 detected; reassigned 'B' to id 6.",
        ])
    );
    assert_eq!(data.create_task_list(today()), 8);
    let key = data.create_task_in_list(2, today()).expect("created");
    assert_eq!(key.task_id, 6);
}

#[test]
fn numbers_can_run_out() {
    let full = vec![file(
        "a.toml",
        ConfigContent::List(list(u64::MAX, "A", "#000000", vec![])),
    )];
    assert!(!do_files_fit(&full));
    let nearly = vec![file(
        "a.toml",
        ConfigContent::List(list(u64::MAX - 1, "A", "#000000", vec![task(u64::MAX - 1, "t")])),
    )];
    assert!(do_files_fit(&nearly));
    let (data, _) = AppData::load_from_dir(nearly, today());
    assert!(!data.can_create_list());
    assert!(!data.can_create_task());
    let doubled = vec![file(
        "a.toml",
        ConfigContent::List(list(1, "A", "#000000", vec![task(u64::MAX - 1, "t"), task(0, "u")])),
    )];
    assert!(!do_files_fit(&doubled));
}

#[test]
fn lists_are_saved_in_files_of_their_own() {
    assert_eq!(generated_list_file_name(1), "list_1.toml");
    assert_eq!(
        generated_list_file_name(u64::MAX),
        "list_18446744073709551615.toml"
    );
    let (mut data, _) = AppData::load_from_dir(Vec::new(), today());
    assert!(data.delete_task_list(2, today()));
    let present = names(&[
        "list_1.toml",
        "list_2.toml",
        "list_old.toml",
        "work.toml",
        "notes.txt",
        "list_3.txt",
        "my_list_2.toml",
    ]);
    let plan = data.save_all(&present);
    assert_eq!(plan.writes, names(&["list_1.toml", "list_3.toml"]));
    assert_eq!(plan.removes, names(&["list_2.toml", "list_old.toml"]));
}

#[test]
fn saved_lists_are_loaded_again() {
    let (data, _) = AppData::load_from_dir(Vec::new(), today());
    let plan = data.save_all(&Vec::new());
    let files = data
        .lists
        .iter()
        .zip(&plan.writes)
        .map(|(list, name)| {
            let mut written = list.clone();
            written.id = 0;
            for task in &mut written.tasks {
                task.id = 0;
            }
            file(name, ConfigContent::List(written))
        })
        .collect();
    let (again, messages) = AppData::load_from_dir(files, today());
    assert!(messages.is_empty());
    let names_before: Vec<&str> = data.lists.iter().map(|l| l.name.as_str()).collect();
    let names_after: Vec<&str> = again.lists.iter().map(|l| l.name.as_str()).collect();
    assert_eq!(names_before, names_after);
    assert_eq!(again.lists[1].tasks[0].title, data.lists[1].tasks[0].title);
    assert_eq!(again.lists[1].tasks[0].id, 1);
}

#[test]
fn saved_lists_come_back_in_the_order_of_the_names_of_their_files() {
    let mut given = Vec::new();
    for id in [2, 10] {
        let name = format!("list {}", id);
        let mut done = task(7, "t");
        done.completed = true;
        done.completed_on = Some(today());
        given.push(file(
            &format!("{}.toml", id),
            ConfigContent::List(list(id, &name, "#000000", vec![task(9, "u"), done])),
        ));
    }
    let (data, _) = AppData::load_from_dir(given, today());
    let plan = data.save_all(&names(&["list_3.toml", "notes.txt"]));
    assert_eq!(plan.removes, names(&["list_3.toml"]));
    let mut there = plan.writes.clone();
    there.push("notes.txt".to_string());
    let order: Vec<usize> = config_files(&there);
    assert_eq!(order, vec![1, 0]);
    let files = order
        .into_iter()
        .map(|index| {
            let mut written = data.lists[index].clone();
            written.id = 0;
            for task in &mut written.tasks {
                task.id = 0;
            }
            file(&there[index], ConfigContent::List(written))
        })
        .collect();
    let (again, messages) = AppData::load_from_dir(files, today());
    assert!(messages.is_empty());
    assert_eq!(again.lists.len(), 2);
    for (old, new) in [(&data.lists[1], &again.lists[0]), (&data.lists[0], &again.lists[1])] {
        assert_eq!(old.name, new.name);
        for (a, b) in old.tasks.iter().zip(&new.tasks) {
            assert_eq!((&a.title, a.completed_on), (&b.title, b.completed_on));
        }
    }
}

#[test]
fn numbers_that_were_given_are_not_given_again() {
    let files = vec![
        file(
            "a.toml",
            ConfigContent::List(list(5, "A", "#000000", vec![task(3, "x"), task(3, "y")])),
        ),
        file("b.toml", ConfigContent::List(list(5, "B", "#000000", vec![]))),
    ];
    let (once, said) = AppData::load_from_dir(files, today());
    assert_eq!(said.len(), 2);
    let files = once
        .lists
        .iter()
        .map(|list| file("c.toml", ConfigContent::List(list.clone())))
        .collect();
    let (again, said) = AppData::load_from_dir(files, today());
    assert!(said.is_empty());
    assert_eq!(again.lists, once.lists);
}

#[test]
fn the_data_directory_is_given_or_found() {
    let choice = |given: Option<&str>, local: bool, data: bool| {
        let choice = data_dir_choice(given.map(str::to_string), local, data);
        (choice.base, choice.path)
    };
    assert_eq!(
        choice(Some(" /tmp/x "), true, true),
        (DirBase::Given, "/tmp/x".to_string())
    );
    let folder = "life-tracking".to_string();
    assert_eq!(choice(Some(" \t"), true, true), (DirBase::Local, folder.clone()));
    assert_eq!(choice(None, true, false), (DirBase::Local, folder.clone()));
    assert_eq!(choice(None, false, true), (DirBase::Data, folder));
    assert_eq!(
        choice(Some(""), false, false),
        (DirBase::Here, ".life-tracking".to_string())
    );
}
