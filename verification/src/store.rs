//! What is kept on disk: one file per list, which files are read and in which order, what they
//! make of the data, and which files are written and removed.

use vstd::prelude::*;
use vstd::string::*;

use crate::color::{parse_hex_color, parsed_color};
use crate::data::{removed_count, AppData, Counters, DataModel};
use crate::date::{Date, MAX_DAY};
use crate::numbers::{
    do_numbers_fit, is_taken, largest, numbers_fit, own_number, own_numbers, own_numbers_leave_one,
    top_number, with_own_numbers,
};
use crate::seqs::{filter_push, views_push};
use crate::sorting::{sort_by_keys, stable_sort, views, SortKey};
use crate::task::{ListModel, Task, TaskList, TaskModel};
use crate::text::{chars_of, decimal, lex_less, same_text, to_decimal, trim, trimmed};

verus! {

/// What became of a file that may hold a list.
#[derive(Debug)]
pub enum ConfigContent {
    List(TaskList),
    InvalidToml(String),
    Unreadable(String),
}

/// A file that may hold a list, with its name.
#[derive(Debug)]
pub struct ConfigFile {
    pub name: String,
    pub content: ConfigContent,
}

/// What became of a file, as mathematical values.
#[verifier::ext_equal]
pub enum ContentModel {
    List(ListModel),
    InvalidToml(Seq<char>),
    Unreadable(Seq<char>),
}

/// A file, as mathematical values.
#[verifier::ext_equal]
pub struct FileModel {
    pub name: Seq<char>,
    pub content: ContentModel,
}

impl View for ConfigFile {
    type V = FileModel;

    open spec fn view(&self) -> FileModel {
        FileModel {
            name: self.name@,
            content: match self.content {
                ConfigContent::List(list) => ContentModel::List(list@),
                ConfigContent::InvalidToml(error) => ContentModel::InvalidToml(error@),
                ConfigContent::Unreadable(error) => ContentModel::Unreadable(error@),
            },
        }
    }
}

/// What is wrong with a list that was read.
pub open spec fn list_fault(list: ListModel) -> Option<Seq<char>> {
    if trimmed(list.name).len() == 0 {
        Some("task list name must not be empty"@)
    } else if parsed_color(list.color_hex) is None {
        Some("task list color_hex must be a valid #RRGGBB value"@)
    } else {
        None
    }
}

/// The list that a file contributes.
pub open spec fn file_list(file: FileModel) -> Option<ListModel> {
    match file.content {
        ContentModel::List(list) => if list_fault(list) is None {
            Some(list)
        } else {
            None
        },
        _ => None,
    }
}

/// What is said of a file that contributes no list.
pub open spec fn file_message(file: FileModel) -> Option<Seq<char>> {
    match file.content {
        ContentModel::List(list) => match list_fault(list) {
            Some(fault) => Some("Config '"@ + file.name + "' invalid: "@ + fault),
            None => None,
        },
        ContentModel::InvalidToml(error) => Some(
            "Config '"@ + file.name + "' has invalid TOML: "@ + error,
        ),
        ContentModel::Unreadable(error) => Some(
            "Config '"@ + file.name + "' could not be read: "@ + error,
        ),
    }
}

/// The lists that the files contribute, in the order of the files.
pub open spec fn file_lists(files: Seq<FileModel>) -> Seq<ListModel>
    decreases files.len(),
{
    if files.len() == 0 {
        Seq::empty()
    } else {
        match file_list(files.last()) {
            Some(list) => file_lists(files.drop_last()).push(list),
            None => file_lists(files.drop_last()),
        }
    }
}

/// What is said of the files that contribute no list, in the order of the files.
pub open spec fn file_messages(files: Seq<FileModel>) -> Seq<Seq<char>>
    decreases files.len(),
{
    if files.len() == 0 {
        Seq::empty()
    } else {
        match file_message(files.last()) {
            Some(message) => file_messages(files.drop_last()).push(message),
            None => file_messages(files.drop_last()),
        }
    }
}

/// The day some days after `today`, or `today` itself where the calendar ends before.
pub open spec fn day_after(today: int, days: int) -> int {
    if today + days <= MAX_DAY {
        today + days
    } else {
        today
    }
}

pub open spec fn seeded_task(
    id: u64,
    title: Seq<char>,
    description: Seq<char>,
    due_date: int,
    estimated_minutes: u32,
    actual_minutes: u32,
) -> TaskModel {
    TaskModel {
        id,
        title,
        description,
        due_date,
        estimated_minutes,
        actual_minutes,
        completed: false,
        completed_on: None,
    }
}

/// The lists to begin with.
pub open spec fn seeded(today: int) -> Seq<ListModel> {
    seq![
        ListModel {
            id: 1,
            name: "Work"@,
            priority: 1,
            color_hex: "#4DA3FF"@,
            tasks: seq![
                seeded_task(
                    1,
                    "Plan sprint goals"@,
                    "Draft sprint objective notes for the team sync."@,
                    today,
                    90,
                    20,
                ),
            ],
        },
        ListModel {
            id: 2,
            name: "Health"@,
            priority: 2,
            color_hex: "#44C777"@,
            tasks: seq![
                seeded_task(
                    2,
                    "30 minute run"@,
                    "Keep a moderate pace and log heart rate."@,
                    day_after(today, 1),
                    30,
                    0,
                ),
            ],
        },
        ListModel {
            id: 3,
            name: "Home"@,
            priority: 3,
            color_hex: "#D67AFF"@,
            tasks: seq![
                seeded_task(
                    3,
                    "Fix cabinet hinge"@,
                    "Tighten screws and realign cabinet door."@,
                    day_after(today, 2),
                    20,
                    0,
                ),
            ],
        },
    ]
}

pub open spec fn list_ids(lists: Seq<ListModel>) -> Seq<u64> {
    Seq::new(lists.len(), |i: int| lists[i].id)
}

pub open spec fn task_ids(tasks: Seq<TaskModel>) -> Seq<u64> {
    Seq::new(tasks.len(), |i: int| tasks[i].id)
}

/// There are enough numbers left for the lists, and for the tasks of each list.
pub open spec fn lists_fit(lists: Seq<ListModel>) -> bool {
    &&& numbers_fit(list_ids(lists))
    &&& forall|i: int| 0 <= i < lists.len() ==> numbers_fit(task_ids(#[trigger] lists[i].tasks))
}

/// The tasks of a list with numbers of their own.
pub open spec fn numbered_tasks(tasks: Seq<TaskModel>) -> Seq<TaskModel> {
    Seq::new(
        tasks.len(),
        |i: int| TaskModel { id: own_number(task_ids(tasks), i), ..tasks[i] },
    )
}

/// The lists with numbers of their own, and so their tasks.
pub open spec fn numbered_lists(lists: Seq<ListModel>) -> Seq<ListModel> {
    Seq::new(
        lists.len(),
        |i: int|
            ListModel {
                id: own_number(list_ids(lists), i),
                tasks: numbered_tasks(lists[i].tasks),
                ..lists[i]
            },
    )
}

/// What is said of a task that gets another number.
pub open spec fn task_message(list_name: Seq<char>, tasks: Seq<TaskModel>, i: int) -> Seq<char> {
    "Duplicate task id "@ + decimal(tasks[i].id as nat) + " detected in list '"@ + list_name
        + "'; reassigned '"@ + tasks[i].title + "' to id "@ + decimal(
        own_number(task_ids(tasks), i) as nat,
    ) + "."@
}

/// What is said of the first `n` tasks of a list.
pub open spec fn task_messages(list_name: Seq<char>, tasks: Seq<TaskModel>, n: int) -> Seq<
    Seq<char>,
>
    decreases n,
{
    if n <= 0 {
        Seq::empty()
    } else if is_taken(task_ids(tasks), n - 1) && tasks[n - 1].id != 0 {
        task_messages(list_name, tasks, n - 1).push(task_message(list_name, tasks, n - 1))
    } else {
        task_messages(list_name, tasks, n - 1)
    }
}

/// What is said of a list that gets another number.
pub open spec fn list_message(lists: Seq<ListModel>, i: int) -> Seq<char> {
    "Duplicate task list id "@ + decimal(lists[i].id as nat) + " detected; reassigned '"@
        + lists[i].name + "' to id "@ + decimal(own_number(list_ids(lists), i) as nat) + "."@
}

/// What is said of the numbers of the first `n` lists and of their tasks.
pub open spec fn number_messages(lists: Seq<ListModel>, n: int) -> Seq<Seq<char>>
    decreases n,
{
    if n <= 0 {
        Seq::empty()
    } else {
        let before = number_messages(lists, n - 1);
        let with_list = if is_taken(list_ids(lists), n - 1) && lists[n - 1].id != 0 {
            before.push(list_message(lists, n - 1))
        } else {
            before
        };
        with_list + task_messages(
            lists[n - 1].name,
            lists[n - 1].tasks,
            lists[n - 1].tasks.len() as int,
        )
    }
}

/// The largest number that a task has, or zero where there are none.
pub open spec fn top_task_number(lists: Seq<ListModel>) -> nat
    decreases lists.len(),
{
    if lists.len() == 0 {
        0
    } else {
        let before = top_task_number(lists.drop_last());
        let own = top_number(task_ids(lists.last().tasks));
        if own > before {
            own
        } else {
            before
        }
    }
}

/// What is said of removed tasks.
pub open spec fn removed_message(removed: nat) -> Seq<Seq<char>> {
    if removed > 0 {
        seq![
            "Removed "@ + decimal(removed)
                + " completed task(s) that were over one week past due date."@,
        ]
    } else {
        Seq::empty()
    }
}

/// The lists to go on with: those that the files contribute, or where there are none, the lists to
/// begin with.
pub open spec fn start_lists(files: Seq<FileModel>, today: int) -> Seq<ListModel> {
    if file_lists(files).len() == 0 {
        seeded(today)
    } else {
        file_lists(files)
    }
}

/// The data made of some lists: each list and each task of a list gets a number of its own.
pub open spec fn numbered_data(lists: Seq<ListModel>) -> DataModel {
    let own = numbered_lists(lists);
    DataModel {
        lists: own,
        next_list_id: (top_number(list_ids(own)) + 1) as u64,
        next_task_id: (top_task_number(own) + 1) as u64,
    }
}

/// The data that the files make.
pub open spec fn loaded_data(files: Seq<FileModel>, today: int) -> DataModel {
    numbered_data(start_lists(files, today)).pruned(today)
}

/// What is said while the files are loaded: of the files, of the numbers, of removed tasks.
pub open spec fn loaded_messages(files: Seq<FileModel>, today: int) -> Seq<Seq<char>> {
    let lists = start_lists(files, today);
    file_messages(files) + number_messages(lists, lists.len() as int) + removed_message(
        removed_count(numbered_lists(lists), today),
    )
}

/// Tells what is wrong with a list that was read.
pub fn validate_task_list(list: &TaskList) -> (res: Result<(), String>)
    ensures
        match res {
            Ok(_) => list_fault(list@) is None,
            Err(fault) => list_fault(list@) == Some(fault@),
        },
{
    let name = trim(list.name.as_str());
    if name.as_str().is_empty() {
        return Err("task list name must not be empty".to_string());
    }
    if parse_hex_color(list.color_hex.as_str()).is_none() {
        return Err("task list color_hex must be a valid #RRGGBB value".to_string());
    }
    Ok(())
}

/// The lists that the files contribute, and what is said of the other files.
fn read_files(files: Vec<ConfigFile>) -> (res: (Vec<TaskList>, Vec<String>))
    ensures
        views(res.0@) == file_lists(views(files@)),
        views(res.1@) == file_messages(views(files@)),
{
    let ghost all = views(files@);
    let mut files = files;
    let mut lists: Vec<TaskList> = Vec::new();
    let mut messages: Vec<String> = Vec::new();
    let count: usize = files.len();
    let mut i: usize = 0;
    assert(all.skip(0) == all);
    assert(views(lists@) == file_lists(all.take(0)));
    assert(views(messages@) == file_messages(all.take(0)));
    while i < count
        invariant
            i <= count,
            count == all.len(),
            views(files@) == all.skip(i as int),
            views(lists@) == file_lists(all.take(i as int)),
            views(messages@) == file_messages(all.take(i as int)),
        decreases count - i,
    {
        assert(views(files@).len() == files@.len());
        let ghost files0 = files@;
        let file = files.remove(0);
        proof {
            assert(views(files0)[0] == file@);
            assert(views(files@) == all.skip(i + 1)) by {
                assert forall|k: int| 0 <= k < all.len() - i - 1 implies views(files@)[k]
                    == all.skip(i + 1)[k] by {
                    assert(views(files0)[k + 1] == all.skip(i as int)[k + 1]);
                }
            }
            assert(all.take(i + 1).drop_last() == all.take(i as int));
            assert(all.take(i + 1).last() == file@);
        }
        let ConfigFile { name, content } = file;
        match content {
            ConfigContent::List(list) => match validate_task_list(&list) {
                Ok(_) => {
                    proof {
                        views_push(lists@, list);
                    }
                    lists.push(list);
                },
                Err(fault) => {
                    let message = "Config '".to_string().concat(name.as_str()).concat(
                        "' invalid: ",
                    ).concat(fault.as_str());
                    proof {
                        views_push(messages@, message);
                    }
                    messages.push(message);
                },
            },
            ConfigContent::InvalidToml(error) => {
                let message = "Config '".to_string().concat(name.as_str()).concat(
                    "' has invalid TOML: ",
                ).concat(error.as_str());
                proof {
                    views_push(messages@, message);
                }
                messages.push(message);
            },
            ConfigContent::Unreadable(error) => {
                let message = "Config '".to_string().concat(name.as_str()).concat(
                    "' could not be read: ",
                ).concat(error.as_str());
                proof {
                    views_push(messages@, message);
                }
                messages.push(message);
            },
        }
        i += 1;
    }
    assert(all.take(count as int) == all);
    (lists, messages)
}

fn ids_of_lists(lists: &Vec<TaskList>) -> (res: Vec<u64>)
    ensures
        res@ == list_ids(views(lists@)),
{
    let mut res: Vec<u64> = Vec::new();
    let mut i: usize = 0;
    while i < lists.len()
        invariant
            i <= lists@.len(),
            res@.len() == i,
            forall|k: int| 0 <= k < i ==> #[trigger] res@[k] == lists@[k].id,
        decreases lists.len() - i,
    {
        res.push(lists[i].id);
        i += 1;
    }
    assert(res@ == list_ids(views(lists@)));
    res
}

fn ids_of_tasks(tasks: &Vec<Task>) -> (res: Vec<u64>)
    ensures
        res@ == task_ids(views(tasks@)),
{
    let mut res: Vec<u64> = Vec::new();
    let mut i: usize = 0;
    while i < tasks.len()
        invariant
            i <= tasks@.len(),
            res@.len() == i,
            forall|k: int| 0 <= k < i ==> #[trigger] res@[k] == tasks@[k].id,
        decreases tasks.len() - i,
    {
        res.push(tasks[i].id);
        i += 1;
    }
    assert(res@ == task_ids(views(tasks@)));
    res
}

/// Tells whether there are enough numbers left for the lists, and for the tasks of each list.
pub fn do_lists_fit(lists: &Vec<TaskList>) -> (res: bool)
    ensures
        res == lists_fit(views(lists@)),
{
    if !do_numbers_fit(&ids_of_lists(lists)) {
        return false;
    }
    let mut i: usize = 0;
    while i < lists.len()
        invariant
            i <= lists@.len(),
            numbers_fit(list_ids(views(lists@))),
            forall|k: int|
                0 <= k < i ==> numbers_fit(task_ids(#[trigger] views(lists@)[k].tasks)),
        decreases lists.len() - i,
    {
        assert(views(lists@)[i as int] == lists@[i as int]@);
        if !do_numbers_fit(&ids_of_tasks(&lists[i].tasks)) {
            assert(!numbers_fit(task_ids(views(lists@)[i as int].tasks)));
            return false;
        }
        i += 1;
    }
    true
}

/// Tells whether there are enough numbers left for the lists that the files hold, and for the tasks
/// of each.
pub fn do_files_fit(files: &Vec<ConfigFile>) -> (res: bool)
    ensures
        res == lists_fit(file_lists(views(files@))),
{
    let mut lists: Vec<TaskList> = Vec::new();
    let mut i: usize = 0;
    assert(views(lists@) == file_lists(views(files@).take(0)));
    while i < files.len()
        invariant
            i <= files@.len(),
            views(lists@) == file_lists(views(files@).take(i as int)),
        decreases files.len() - i,
    {
        proof {
            assert(views(files@).take(i + 1).drop_last() == views(files@).take(i as int));
            assert(views(files@).take(i + 1).last() == files@[i as int]@);
        }
        if let ConfigContent::List(list) = &files[i].content {
            if validate_task_list(list).is_ok() {
                let copy = list.clone();
                proof {
                    views_push(lists@, copy);
                }
                lists.push(copy);
            }
        }
        i += 1;
    }
    assert(views(files@).take(i as int) == views(files@));
    do_lists_fit(&lists)
}

/// Gives the tasks of a list numbers of their own, and tells of those that change.
fn number_tasks(tasks: &mut Vec<Task>, list_name: &str, messages: &mut Vec<String>)
    requires
        numbers_fit(task_ids(views(old(tasks)@))),
    ensures
        views(final(tasks)@) == numbered_tasks(views(old(tasks)@)),
        views(final(messages)@) == views(old(messages)@) + task_messages(
            list_name@,
            views(old(tasks)@),
            old(tasks)@.len() as int,
        ),
{
    let ghost all = views(tasks@);
    let ghost said = views(messages@);
    let old_ids = ids_of_tasks(tasks);
    let new_ids = with_own_numbers(&old_ids);
    let mut i: usize = 0;
    assert(said + task_messages(list_name@, all, 0) == said);
    while i < tasks.len()
        invariant
            i <= tasks@.len(),
            tasks@.len() == all.len(),
            old_ids@ == task_ids(all),
            new_ids@ == own_numbers(task_ids(all)),
            numbers_fit(task_ids(all)),
            forall|k: int| i <= k < all.len() ==> #[trigger] tasks@[k]@ == all[k],
            forall|k: int|
                0 <= k < i ==> #[trigger] tasks@[k]@ == (TaskModel {
                    id: own_number(task_ids(all), k),
                    ..all[k]
                }),
            views(messages@) == said + task_messages(list_name@, all, i as int),
        decreases tasks.len() - i,
    {
        let ghost tasks0 = tasks@;
        let old_id: u64 = old_ids[i];
        let new_id: u64 = new_ids[i];
        assert(tasks@[i as int]@ == all[i as int]);
        assert(old_id == all[i as int].id);
        assert(new_id == own_number(task_ids(all), i as int));
        assert(new_id != old_id <==> is_taken(task_ids(all), i as int)) by {
            crate::numbers::own_number_changes(task_ids(all), i as int);
        }
        tasks[i].id = new_id;
        if old_id != 0 && new_id != old_id {
            let message = "Duplicate task id ".to_string().concat(
                to_decimal(old_id).as_str(),
            ).concat(" detected in list '").concat(list_name).concat("'; reassigned '").concat(
                tasks[i].title.as_str(),
            ).concat("' to id ").concat(to_decimal(new_id).as_str()).concat(".");
            assert(message@ == task_message(list_name@, all, i as int));
            proof {
                views_push(messages@, message);
            }
            messages.push(message);
            assert(said + task_messages(list_name@, all, i as int).push(message@) == (said
                + task_messages(list_name@, all, i as int)).push(message@));
        }
        proof {
            assert forall|k: int| i + 1 <= k < all.len() implies #[trigger] tasks@[k]@
                == all[k] by {
                assert(tasks@[k] == tasks0[k]);
            }
            assert forall|k: int| 0 <= k < i + 1 implies #[trigger] tasks@[k]@ == (TaskModel {
                id: own_number(task_ids(all), k),
                ..all[k]
            }) by {
                if k < i {
                    assert(tasks@[k] == tasks0[k]);
                }
            }
        }
        i += 1;
    }
    assert(views(tasks@) == numbered_tasks(all));
}

/// Gives lists numbers of their own, and so their tasks, and tells of those that change.
fn resolve_duplicate_ids(lists: &mut Vec<TaskList>, messages: &mut Vec<String>)
    requires
        lists_fit(views(old(lists)@)),
    ensures
        views(final(lists)@) == numbered_lists(views(old(lists)@)),
        views(final(messages)@) == views(old(messages)@) + number_messages(
            views(old(lists)@),
            old(lists)@.len() as int,
        ),
{
    let ghost all = views(lists@);
    let ghost said = views(messages@);
    let old_ids = ids_of_lists(lists);
    let new_ids = with_own_numbers(&old_ids);
    let mut i: usize = 0;
    assert(said + number_messages(all, 0) == said);
    while i < lists.len()
        invariant
            i <= lists@.len(),
            lists@.len() == all.len(),
            old_ids@ == list_ids(all),
            new_ids@ == own_numbers(list_ids(all)),
            lists_fit(all),
            forall|k: int| i <= k < all.len() ==> #[trigger] lists@[k]@ == all[k],
            forall|k: int|
                0 <= k < i ==> #[trigger] lists@[k]@ == (ListModel {
                    id: own_number(list_ids(all), k),
                    tasks: numbered_tasks(all[k].tasks),
                    ..all[k]
                }),
            views(messages@) == said + number_messages(all, i as int),
        decreases lists.len() - i,
    {
        let ghost lists0 = lists@;
        let ghost said0 = number_messages(all, i as int);
        let old_id: u64 = old_ids[i];
        let new_id: u64 = new_ids[i];
        assert(lists@[i as int]@ == all[i as int]);
        assert(new_id != old_id <==> is_taken(list_ids(all), i as int)) by {
            crate::numbers::own_number_changes(list_ids(all), i as int);
        }
        let ghost with_list = if is_taken(list_ids(all), i as int) && all[i as int].id != 0 {
            said0.push(list_message(all, i as int))
        } else {
            said0
        };
        if old_id != 0 && new_id != old_id {
            let message = "Duplicate task list id ".to_string().concat(
                to_decimal(old_id).as_str(),
            ).concat(" detected; reassigned '").concat(lists[i].name.as_str()).concat(
                "' to id ",
            ).concat(to_decimal(new_id).as_str()).concat(".");
            assert(message@ == list_message(all, i as int));
            proof {
                views_push(messages@, message);
            }
            messages.push(message);
            assert(said + said0.push(message@) == (said + said0).push(message@));
        }
        assert(views(messages@) == said + with_list);
        lists[i].id = new_id;
        let name = lists[i].name.clone();
        assert(views(lists@[i as int].tasks@) == all[i as int].tasks);
        number_tasks(&mut lists[i].tasks, name.as_str(), messages);
        proof {
            let told = task_messages(
                all[i as int].name,
                all[i as int].tasks,
                all[i as int].tasks.len() as int,
            );
            assert(said + with_list + told == said + (with_list + told));
            assert forall|k: int| i + 1 <= k < all.len() implies #[trigger] lists@[k]@
                == all[k] by {
                assert(lists@[k] == lists0[k]);
            }
            assert forall|k: int| 0 <= k < i + 1 implies #[trigger] lists@[k]@ == (ListModel {
                id: own_number(list_ids(all), k),
                tasks: numbered_tasks(all[k].tasks),
                ..all[k]
            }) by {
                if k < i {
                    assert(lists@[k] == lists0[k]);
                }
            }
        }
        i += 1;
    }
    assert(views(lists@) == numbered_lists(all));
}

/// The largest number that a task has, or zero where there are none.
fn largest_task(lists: &Vec<TaskList>) -> (res: u64)
    ensures
        res == top_task_number(views(lists@)),
{
    let mut res: u64 = 0;
    let mut i: usize = 0;
    while i < lists.len()
        invariant
            i <= lists@.len(),
            res == top_task_number(views(lists@).take(i as int)),
        decreases lists.len() - i,
    {
        proof {
            assert(views(lists@).take(i + 1).drop_last() == views(lists@).take(i as int));
            assert(views(lists@).take(i + 1).last() == lists@[i as int]@);
        }
        let own: u64 = largest(&ids_of_tasks(&lists[i].tasks));
        if own > res {
            res = own;
        }
        i += 1;
    }
    assert(views(lists@).take(i as int) == views(lists@));
    res
}

/// There is a number above all that the lists and the tasks get.
pub proof fn numbers_are_left(lists: Seq<ListModel>)
    requires
        lists_fit(lists),
    ensures
        top_number(list_ids(numbered_lists(lists))) < u64::MAX,
        top_task_number(numbered_lists(lists)) < u64::MAX,
{
    own_numbers_leave_one(list_ids(lists));
    assert(list_ids(numbered_lists(lists)) == own_numbers(list_ids(lists)));
    task_numbers_are_left(lists, lists.len() as int);
    assert(numbered_lists(lists).take(lists.len() as int) == numbered_lists(lists));
}

proof fn task_numbers_are_left(lists: Seq<ListModel>, n: int)
    requires
        lists_fit(lists),
        0 <= n <= lists.len(),
    ensures
        top_task_number(numbered_lists(lists).take(n)) < u64::MAX,
    decreases n,
{
    if n > 0 {
        task_numbers_are_left(lists, n - 1);
        let own = numbered_lists(lists);
        assert(own.take(n).drop_last() == own.take(n - 1));
        let tasks = lists[n - 1].tasks;
        assert(own.take(n).last().tasks == numbered_tasks(tasks));
        assert(task_ids(numbered_tasks(tasks)) == own_numbers(task_ids(tasks)));
        own_numbers_leave_one(task_ids(tasks));
    }
}

fn seed_task(
    id: u64,
    title: &str,
    description: &str,
    due_date: Date,
    estimated_minutes: u32,
    actual_minutes: u32,
) -> (res: Vec<Task>)
    ensures
        views(res@) == seq![
            seeded_task(
                id,
                title@,
                description@,
                due_date@,
                estimated_minutes,
                actual_minutes,
            ),
        ],
{
    let task = Task {
        id,
        title: title.to_string(),
        description: description.to_string(),
        due_date,
        estimated_minutes,
        actual_minutes,
        completed: false,
        completed_on: None,
    };
    let mut res: Vec<Task> = Vec::new();
    res.push(task);
    assert(views(res@)[0] == task@);
    res
}

fn later(today: Date, days: i32) -> (res: Date)
    requires
        0 <= days <= 7,
    ensures
        res@ == day_after(today@, days as int),
{
    match today.plus_days(days) {
        Some(day) => day,
        None => today,
    }
}

/// The lists to begin with.
pub fn seeded_lists(today: Date) -> (res: Vec<TaskList>)
    ensures
        views(res@) == seeded(today@),
{
    let work = TaskList {
        id: 1,
        name: "Work".to_string(),
        priority: 1,
        color_hex: "#4DA3FF".to_string(),
        tasks: seed_task(
            1,
            "Plan sprint goals",
            "Draft sprint objective notes for the team sync.",
            today,
            90,
            20,
        ),
    };
    let health = TaskList {
        id: 2,
        name: "Health".to_string(),
        priority: 2,
        color_hex: "#44C777".to_string(),
        tasks: seed_task(
            2,
            "30 minute run",
            "Keep a moderate pace and log heart rate.",
            later(today, 1),
            30,
            0,
        ),
    };
    let home = TaskList {
        id: 3,
        name: "Home".to_string(),
        priority: 3,
        color_hex: "#D67AFF".to_string(),
        tasks: seed_task(
            3,
            "Fix cabinet hinge",
            "Tighten screws and realign cabinet door.",
            later(today, 2),
            20,
            0,
        ),
    };
    let mut res: Vec<TaskList> = Vec::new();
    res.push(work);
    res.push(health);
    res.push(home);
    proof {
        assert(views(res@)[0] == work@);
        assert(views(res@)[1] == health@);
        assert(views(res@)[2] == home@);
        assert(views(res@) == seeded(today@));
    }
    res
}

/// The lists to begin with have numbers of their own already.
pub proof fn seeded_numbers_stay(today: int)
    ensures
        lists_fit(seeded(today)),
        numbered_lists(seeded(today)) == seeded(today),
{
    let lists = seeded(today);
    let ids = list_ids(lists);
    assert(ids == seq![1u64, 2, 3]);
    reveal_with_fuel(top_number, 5);
    reveal_with_fuel(crate::numbers::taken_before, 5);
    assert(ids.drop_last() == seq![1u64, 2]);
    assert(ids.drop_last().drop_last() == seq![1u64]);
    assert(ids.drop_last().drop_last().drop_last() == Seq::<u64>::empty());
    assert(!is_taken(ids, 0) && !is_taken(ids, 1) && !is_taken(ids, 2));
    assert(numbers_fit(ids));
    assert forall|i: int| 0 <= i < lists.len() implies numbers_fit(
        task_ids(#[trigger] lists[i].tasks),
    ) && numbered_tasks(lists[i].tasks) == lists[i].tasks by {
        let tasks = lists[i].tasks;
        let own = task_ids(tasks);
        assert(own.len() == 1 && own[0] == i + 1);
        assert(own.drop_last() == Seq::<u64>::empty());
        assert(!is_taken(own, 0));
        assert(numbered_tasks(tasks) == tasks);
    }
    assert(numbered_lists(lists) == lists);
}

impl AppData {
    /// The data made of some lists: each list and each task of a list gets a number of its own.
    fn from_lists(lists: Vec<TaskList>, messages: &mut Vec<String>) -> (res: AppData)
        requires
            lists_fit(views(lists@)),
        ensures
            res@ == numbered_data(views(lists@)),
            views(final(messages)@) == views(old(messages)@) + number_messages(
                views(lists@),
                lists@.len() as int,
            ),
    {
        let ghost given = views(lists@);
        let mut lists = lists;
        resolve_duplicate_ids(&mut lists, messages);
        proof {
            numbers_are_left(given);
        }
        let next_list_id: u64 = largest(&ids_of_lists(&lists)) + 1;
        let next_task_id: u64 = largest_task(&lists) + 1;
        AppData { lists, counters: Counters::new(next_list_id, next_task_id) }
    }

    /// The data that the files of the data directory make, and what is said while they are loaded.
    pub fn load_from_dir(files: Vec<ConfigFile>, today: Date) -> (res: (AppData, Vec<String>))
        requires
            lists_fit(file_lists(views(files@))),
        ensures
            res.0@ == loaded_data(views(files@), today@),
            views(res.1@) == loaded_messages(views(files@), today@),
    {
        let ghost all = views(files@);
        let (read, said) = read_files(files);
        let mut messages = said;
        let lists = if read.len() == 0 {
            seeded_lists(today)
        } else {
            read
        };
        proof {
            assert(views(read@).len() == read@.len());
            seeded_numbers_stay(today@);
            assert(views(lists@) == start_lists(all, today@));
        }
        let mut data = AppData::from_lists(lists, &mut messages);
        let removed: usize = data.prune_completed_overdue(today);
        if removed > 0 {
            let message = "Removed ".to_string().concat(to_decimal(removed as u64).as_str()).concat(
                " completed task(s) that were over one week past due date.",
            );
            let ghost said0 = views(messages@);
            proof {
                views_push(messages@, message);
            }
            messages.push(message);
            assert(views(messages@) == said0 + seq![message@]);
        }
        (data, messages)
    }
}

/// The name of the file that a list is saved in.
pub open spec fn file_name(list_id: u64) -> Seq<char> {
    "list_"@ + decimal(list_id as nat) + ".toml"@
}

pub open spec fn starts_with(s: Seq<char>, prefix: Seq<char>) -> bool {
    prefix.len() <= s.len() && s.take(prefix.len() as int) == prefix
}

pub open spec fn ends_with(s: Seq<char>, suffix: Seq<char>) -> bool {
    suffix.len() <= s.len() && s.skip(s.len() - suffix.len()) == suffix
}

/// A file that is read: its name has the extension `toml`.
pub open spec fn is_config_name(name: Seq<char>) -> bool {
    name.len() > 5 && ends_with(name, ".toml"@)
}

/// A name that begins and ends like those of the files that lists are saved in, whatever stands
/// between.
pub open spec fn is_generated_name(name: Seq<char>) -> bool {
    starts_with(name, "list_"@) && ends_with(name, ".toml"@)
}

/// The names of the files that the lists are saved in.
pub open spec fn file_names(lists: Seq<ListModel>) -> Seq<Seq<char>> {
    Seq::new(lists.len(), |i: int| file_name(lists[i].id))
}

/// A file that is named like those that lists are saved in, and that no list is saved in now.
pub open spec fn is_stale(written: Seq<Seq<char>>) -> spec_fn(Seq<char>) -> bool {
    |name: Seq<char>| is_generated_name(name) && !written.contains(name)
}

/// The files to write, the one at each position for the list at the same position, and the files to
/// remove.
#[derive(Debug)]
pub struct SavePlan {
    pub writes: Vec<String>,
    pub removes: Vec<String>,
}

/// The name of the file that a list is saved in.
pub fn generated_list_file_name(list_id: u64) -> (res: String)
    ensures
        res@ == file_name(list_id),
{
    "list_".to_string().concat(to_decimal(list_id).as_str()).concat(".toml")
}

fn does_end_with(s: &str, suffix: &str) -> (res: bool)
    ensures
        res == ends_with(s@, suffix@),
{
    let chars = chars_of(s);
    let end = chars_of(suffix);
    if chars.len() < end.len() {
        return false;
    }
    let from: usize = chars.len() - end.len();
    let mut i: usize = 0;
    while i < end.len()
        invariant
            chars@ == s@,
            end@ == suffix@,
            i <= end.len(),
            from + end.len() == chars.len(),
            forall|k: int| 0 <= k < i ==> s@.skip(from as int)[k] == #[trigger] suffix@[k],
        decreases end.len() - i,
    {
        if chars[from + i] != end[i] {
            assert(s@.skip(from as int)[i as int] != suffix@[i as int]);
            return false;
        }
        i += 1;
    }
    assert(s@.skip(from as int) == suffix@);
    true
}

fn does_start_with(s: &str, prefix: &str) -> (res: bool)
    ensures
        res == starts_with(s@, prefix@),
{
    let chars = chars_of(s);
    let start = chars_of(prefix);
    if chars.len() < start.len() {
        return false;
    }
    let mut i: usize = 0;
    while i < start.len()
        invariant
            chars@ == s@,
            start@ == prefix@,
            i <= start.len() <= chars.len(),
            forall|k: int| 0 <= k < i ==> s@.take(start@.len() as int)[k] == #[trigger] prefix@[k],
        decreases start.len() - i,
    {
        if chars[i] != start[i] {
            assert(s@.take(start@.len() as int)[i as int] != prefix@[i as int]);
            return false;
        }
        i += 1;
    }
    assert(s@.take(prefix@.len() as int) == prefix@);
    true
}

/// The positions of the names of files that are read, in their order.
pub open spec fn config_positions(names: Seq<Seq<char>>) -> Seq<usize>
    decreases names.len(),
{
    if names.len() == 0 {
        Seq::empty()
    } else if is_config_name(names.last()) {
        config_positions(names.drop_last()).push((names.len() - 1) as usize)
    } else {
        config_positions(names.drop_last())
    }
}

/// The order of the names at two positions.
pub open spec fn name_order(names: Seq<Seq<char>>) -> spec_fn(usize, usize) -> bool {
    |a: usize, b: usize| lex_less(names[a as int], names[b as int])
}

/// Which of the files in the data directory are read, by their positions, in the order in which
/// they are read: that of their names.
pub fn config_files(names: &Vec<String>) -> (res: Vec<usize>)
    ensures
        res@ == stable_sort(config_positions(views(names@)), name_order(views(names@))),
{
    let mut rows: Vec<usize> = Vec::new();
    let mut keys: Vec<SortKey> = Vec::new();
    let mut i: usize = 0;
    while i < names.len()
        invariant
            i <= names@.len(),
            rows@ == config_positions(views(names@).take(i as int)),
            keys@.len() == rows@.len(),
            forall|k: int|
                0 <= k < rows@.len() ==> (#[trigger] keys@[k]).major == 0 && keys@[k].minor == 0
                    && keys@[k].text@ == views(names@)[rows@[k] as int],
        decreases names.len() - i,
    {
        proof {
            assert(views(names@).take(i + 1).drop_last() == views(names@).take(i as int));
            assert(views(names@).take(i + 1).last() == names@[i as int]@);
        }
        let text = chars_of(names[i].as_str());
        if text.len() > 5 && does_end_with(names[i].as_str(), ".toml") {
            rows.push(i);
            keys.push(SortKey { major: 0, minor: 0, text });
        }
        i += 1;
    }
    let ghost less = name_order(views(names@));
    proof {
        assert(views(names@).take(i as int) == views(names@));
        assert forall|a: int, b: int|
            0 <= a < rows@.len() && 0 <= b < rows@.len() implies less(
            #[trigger] rows@[a]@,
            #[trigger] rows@[b]@,
        ) == crate::sorting::key_before(keys@[a]@, keys@[b]@, false) by {
            assert(keys@[a].major == 0 && keys@[b].major == 0);
        }
        assert(views(rows@) == rows@);
    }
    let res = sort_by_keys(rows, keys, false, Ghost(less));
    assert(views(res@) == res@);
    res
}

fn has_name(names: &Vec<String>, name: &str) -> (res: bool)
    ensures
        res == views(names@).contains(name@),
{
    let mut i: usize = 0;
    while i < names.len()
        invariant
            i <= names@.len(),
            forall|k: int| 0 <= k < i ==> #[trigger] views(names@)[k] != name@,
        decreases names.len() - i,
    {
        assert(views(names@)[i as int] == names@[i as int]@);
        if same_text(names[i].as_str(), name) {
            return true;
        }
        i += 1;
    }
    false
}

impl AppData {
    /// Which files are written, and which of those that are present are removed, so that the lists
    /// and nothing else are saved.
    pub fn save_all(&self, present: &Vec<String>) -> (res: SavePlan)
        ensures
            views(res.writes@) == file_names(self@.lists),
            views(res.removes@) == views(present@).filter(is_stale(file_names(self@.lists))),
    {
        let mut writes: Vec<String> = Vec::new();
        let mut i: usize = 0;
        while i < self.lists.len()
            invariant
                i <= self.lists@.len(),
                views(writes@) == file_names(self@.lists).take(i as int),
            decreases self.lists.len() - i,
        {
            let name = generated_list_file_name(self.lists[i].id);
            proof {
                views_push(writes@, name);
                assert(self@.lists[i as int] == self.lists@[i as int]@);
                assert(file_names(self@.lists).take(i as int).push(name@) == file_names(
                    self@.lists,
                ).take(i + 1));
            }
            writes.push(name);
            i += 1;
        }
        assert(file_names(self@.lists).take(i as int) == file_names(self@.lists));
        let ghost stale = is_stale(file_names(self@.lists));
        let mut removes: Vec<String> = Vec::new();
        let mut k: usize = 0;
        assert(views(present@).take(0).filter(stale) == Seq::<Seq<char>>::empty()) by {
            reveal(Seq::filter);
        }
        assert(views(removes@) == Seq::<Seq<char>>::empty());
        while k < present.len()
            invariant
                k <= present@.len(),
                views(writes@) == file_names(self@.lists),
                stale == is_stale(file_names(self@.lists)),
                views(removes@) == views(present@).take(k as int).filter(stale),
            decreases present.len() - k,
        {
            let name = present[k].as_str();
            proof {
                assert(views(present@)[k as int] == name@);
                filter_push(views(present@).take(k as int), stale, name@);
                assert(views(present@).take(k as int).push(name@) == views(present@).take(k + 1));
            }
            if does_start_with(name, "list_") && does_end_with(name, ".toml") && !has_name(
                &writes,
                name,
            ) {
                let copy = name.to_string();
                proof {
                    views_push(removes@, copy);
                }
                removes.push(copy);
            }
            k += 1;
        }
        assert(views(present@).take(k as int) == views(present@));
        SavePlan { writes, removes }
    }
}

} // verus!
