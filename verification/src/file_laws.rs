//! What is read from files and what is written to them, told by what the files hold.

use vstd::prelude::*;
use vstd::seq_lib::*;

use crate::color::parsed_color;
use crate::data::removed_count;
use crate::date::MAX_DAY;
use crate::directory::{chosen_dir, DirBase};
use crate::effects::TextPurpose;
use crate::numbers::{
    is_taken, numbers_fit, own_number, own_number_above, taken_before, top_number,
    top_number_is_top,
};
use crate::seqs::filter_has;
use crate::sorting::{sorting_keeps, stable_sort, stable_sort_sorts};
use crate::store::{
    config_positions, file_lists, file_messages, file_name, file_names, is_config_name,
    is_generated_name, is_stale, list_fault, list_ids, lists_fit, loaded_data, loaded_messages,
    name_order, number_messages, numbered_data, numbered_lists, numbers_are_left, seeded, task_ids,
    task_messages, top_task_number, ContentModel, FileModel,
};
use crate::store_laws::{file_order_is_weak, top_task_is_top};
use crate::task::{ListModel, TaskKey, TaskModel};
use crate::text::{decimal, lex_less, trimmed};

verus! {

/// A list is faulty just where its name is blank or its color is none, and the fault says which.
pub proof fn faults_are_blank_names_and_colors(list: ListModel)
    ensures
        trimmed(list.name).len() == 0 ==> list_fault(list) == Some(
            "task list name must not be empty"@,
        ),
        trimmed(list.name).len() > 0 && parsed_color(list.color_hex) is None ==> list_fault(list)
            == Some("task list color_hex must be a valid #RRGGBB value"@),
        trimmed(list.name).len() > 0 && parsed_color(list.color_hex) is Some ==> list_fault(
            list,
        ) is None,
{
}

/// Files are read in order: one with a sound list adds it as it is, and any other adds a message
/// that names it and says why.
pub proof fn each_file_adds_its_list_or_a_message(
    files: Seq<FileModel>,
    name: Seq<char>,
    list: ListModel,
    error: Seq<char>,
)
    ensures
        file_lists(Seq::empty()).len() == 0,
        file_messages(Seq::empty()).len() == 0,
        ({
            let all = files.push(FileModel { name, content: ContentModel::List(list) });
            match list_fault(list) {
                None => file_lists(all) == file_lists(files).push(list) && file_messages(all)
                    == file_messages(files),
                Some(fault) => file_lists(all) == file_lists(files) && file_messages(all)
                    == file_messages(files).push(
                    "Config '"@ + name + "' invalid: "@ + fault,
                ),
            }
        }),
        ({
            let all = files.push(FileModel { name, content: ContentModel::InvalidToml(error) });
            file_lists(all) == file_lists(files) && file_messages(all) == file_messages(files).push(
                "Config '"@ + name + "' has invalid TOML: "@ + error,
            )
        }),
        ({
            let all = files.push(FileModel { name, content: ContentModel::Unreadable(error) });
            file_lists(all) == file_lists(files) && file_messages(all) == file_messages(files).push(
                "Config '"@ + name + "' could not be read: "@ + error,
            )
        }),
{
    let a = files.push(FileModel { name, content: ContentModel::List(list) });
    let b = files.push(FileModel { name, content: ContentModel::InvalidToml(error) });
    let c = files.push(FileModel { name, content: ContentModel::Unreadable(error) });
    assert(a.drop_last() == files && b.drop_last() == files && c.drop_last() == files);
}

/// Where no file holds a sound list, there are three lists to begin with, each with one open task,
/// due today, tomorrow and the day after.
pub proof fn there_are_three_lists_to_begin_with(today: int)
    requires
        today + 2 <= MAX_DAY,
    ensures
        ({
            let task = |
                id: u64,
                title: Seq<char>,
                description: Seq<char>,
                due_date: int,
                estimated_minutes: u32,
                actual_minutes: u32,
            |
                TaskModel {
                    id,
                    title,
                    description,
                    due_date,
                    estimated_minutes,
                    actual_minutes,
                    completed: false,
                    completed_on: None,
                };
            &&& seeded(today).len() == 3
            &&& seeded(today)[0] == (ListModel {
                id: 1,
                name: "Work"@,
                priority: 1,
                color_hex: "#4DA3FF"@,
                tasks: seq![
                    task(
                        1,
                        "Plan sprint goals"@,
                        "Draft sprint objective notes for the team sync."@,
                        today,
                        90,
                        20,
                    ),
                ],
            })
            &&& seeded(today)[1] == (ListModel {
                id: 2,
                name: "Health"@,
                priority: 2,
                color_hex: "#44C777"@,
                tasks: seq![
                    task(
                        2,
                        "30 minute run"@,
                        "Keep a moderate pace and log heart rate."@,
                        today + 1,
                        30,
                        0,
                    ),
                ],
            })
            &&& seeded(today)[2] == (ListModel {
                id: 3,
                name: "Home"@,
                priority: 3,
                color_hex: "#D67AFF"@,
                tasks: seq![
                    task(
                        3,
                        "Fix cabinet hinge"@,
                        "Tighten screws and realign cabinet door."@,
                        today + 2,
                        20,
                        0,
                    ),
                ],
            })
        }),
{
}

/// What is loaded are the lists of the files, or those to begin with, with numbers of their own and
/// without what is overdue; the messages tell of the files, of the numbers that were given anew,
/// and of the tasks that were removed, in this order.
pub proof fn what_is_loaded_is_numbered_and_pruned(files: Seq<FileModel>, today: int)
    ensures
        ({
            let lists = if file_lists(files).len() > 0 {
                file_lists(files)
            } else {
                seeded(today)
            };
            let removed = removed_count(numbered_lists(lists), today);
            &&& loaded_data(files, today) == numbered_data(lists).pruned(today)
            &&& loaded_messages(files, today) == file_messages(files) + number_messages(
                lists,
                lists.len() as int,
            ) + (if removed == 0 {
                Seq::empty()
            } else {
                seq![
                    "Removed "@ + decimal(removed)
                        + " completed task(s) that were over one week past due date."@,
                ]
            })
        }),
{
}

/// A number stands already: it is zero, or one in front is the same.
pub open spec fn stands_already(ids: Seq<u64>, i: int) -> bool {
    ids[i] == 0 || exists|j: int| 0 <= j < i && #[trigger] ids[j] == ids[i]
}

proof fn none_taken_in_between(ids: Seq<u64>, m: int, n: int)
    requires
        0 <= m <= n <= ids.len(),
        forall|k: int| m <= k < n ==> !#[trigger] is_taken(ids, k),
    ensures
        taken_before(ids, n) == taken_before(ids, m),
    decreases n - m,
{
    if m < n {
        none_taken_in_between(ids, m, n - 1);
        assert(!is_taken(ids, n - 1));
    }
}

/// A number that does not stand already stays. Of those that do, the first gets the number above
/// all, and each other one the number above the one before it.
pub proof fn numbers_are_given_in_order(ids: Seq<u64>, i: int, j: int)
    requires
        numbers_fit(ids),
        0 <= i < j < ids.len(),
    ensures
        !stands_already(ids, i) ==> own_number(ids, i) == ids[i],
        stands_already(ids, i) && (forall|k: int| 0 <= k < i ==> !#[trigger] stands_already(ids, k))
            ==> own_number(ids, i) == top_number(ids) + 1,
        stands_already(ids, i) && stands_already(ids, j) && (forall|k: int|
            i < k < j ==> !#[trigger] stands_already(ids, k)) ==> own_number(ids, j) == own_number(
            ids,
            i,
        ) + 1,
{
    assert forall|k: int| stands_already(ids, k) == is_taken(ids, k) by {}
    if is_taken(ids, i) {
        own_number_above(ids, i);
        if forall|k: int| 0 <= k < i ==> !#[trigger] stands_already(ids, k) {
            assert forall|k: int| 0 <= k < i implies !#[trigger] is_taken(ids, k) by {
                assert(!stands_already(ids, k));
            }
            none_taken_in_between(ids, 0, i);
        }
        if is_taken(ids, j) && (forall|k: int| i < k < j ==> !#[trigger] stands_already(ids, k)) {
            own_number_above(ids, j);
            assert forall|k: int| i + 1 <= k < j implies !#[trigger] is_taken(ids, k) by {
                assert(!stands_already(ids, k));
            }
            none_taken_in_between(ids, i + 1, j);
        }
    }
}

/// There are numbers for all of those that stand already where they can be counted on from the
/// largest and one more is left; so it must be of the lists and of the tasks of each.
pub proof fn there_must_be_numbers_for_all(ids: Seq<u64>, lists: Seq<ListModel>, n: int)
    ensures
        numbers_fit(ids) <==> top_number(ids) + taken_before(ids, ids.len() as int) < u64::MAX,
        taken_before(ids, 0) == 0,
        0 <= n < ids.len() ==> taken_before(ids, n + 1) == taken_before(ids, n) + (
        if stands_already(ids, n) {
            1int
        } else {
            0
        }),
        lists_fit(lists) <==> numbers_fit(Seq::new(lists.len(), |k: int| lists[k].id)) && forall|
            i: int,
        |
            0 <= i < lists.len() ==> numbers_fit(task_ids(#[trigger] lists[i].tasks)),
{
    assert(list_ids(lists) == Seq::new(lists.len(), |k: int| lists[k].id));
}

/// The largest number is one of them, and none is above it.
pub proof fn the_largest_number_is_one_of_them(ids: Seq<u64>, i: int)
    ensures
        0 <= i < ids.len() ==> ids[i] <= top_number(ids),
        ids.len() == 0 ==> top_number(ids) == 0,
        ids.len() > 0 ==> exists|k: int| 0 <= k < ids.len() && #[trigger] ids[k] == top_number(ids),
    decreases ids.len(),
{
    if 0 <= i < ids.len() {
        top_number_is_top(ids, i);
    }
    if ids.len() > 0 {
        let rest = ids.drop_last();
        the_largest_number_is_one_of_them(rest, 0);
        if ids.last() > top_number(rest) || rest.len() == 0 {
            assert(ids[ids.len() - 1] == top_number(ids));
        } else {
            let k = choose|k: int| 0 <= k < rest.len() && #[trigger] rest[k] == top_number(rest);
            assert(ids[k] == top_number(ids));
        }
    }
}

/// Giving numbers changes nothing but numbers, and the next numbers are above all that are given.
pub proof fn only_numbers_are_given(lists: Seq<ListModel>, i: int, j: int)
    requires
        0 <= i < lists.len(),
    ensures
        numbered_data(lists).lists.len() == lists.len(),
        ({
            let list = numbered_data(lists).lists[i];
            &&& list.name == lists[i].name
            &&& list.priority == lists[i].priority
            &&& list.color_hex == lists[i].color_hex
            &&& list.tasks.len() == lists[i].tasks.len()
            &&& list.id == own_number(
                Seq::new(lists.len(), |k: int| lists[k].id),
                i,
            )
            &&& 0 <= j < list.tasks.len() ==> list.tasks[j] == (TaskModel {
                id: own_number(
                    Seq::new(lists[i].tasks.len(), |k: int| lists[i].tasks[k].id),
                    j,
                ),
                ..lists[i].tasks[j]
            })
        }),
{
    assert(list_ids(lists) == Seq::new(lists.len(), |k: int| lists[k].id));
    assert(task_ids(lists[i].tasks) == Seq::new(
        lists[i].tasks.len(),
        |k: int| lists[i].tasks[k].id,
    ));
}

/// A list has a task with the number.
pub open spec fn has_task_number(lists: Seq<ListModel>, n: int) -> bool {
    exists|i: int, j: int|
        0 <= i < lists.len() && 0 <= j < lists[i].tasks.len() && #[trigger] lists[i].tasks[j].id
            == n
}

proof fn the_largest_task_number_is_one_of_them(lists: Seq<ListModel>)
    ensures
        top_task_number(lists) == 0 || has_task_number(lists, top_task_number(lists) as int),
    decreases lists.len(),
{
    if lists.len() > 0 {
        let rest = lists.drop_last();
        the_largest_task_number_is_one_of_them(rest);
        let ids = task_ids(lists.last().tasks);
        the_largest_number_is_one_of_them(ids, 0);
        if top_number(ids) > top_task_number(rest) {
            let k = choose|k: int| 0 <= k < ids.len() && #[trigger] ids[k] == top_number(ids);
            assert(lists[lists.len() - 1].tasks[k].id == top_task_number(lists));
        } else if top_task_number(rest) > 0 {
            let (i, j) = choose|i: int, j: int|
                0 <= i < rest.len() && 0 <= j < rest[i].tasks.len() && #[trigger] rest[i].tasks[j].id
                    == top_task_number(rest);
            assert(lists[i].tasks[j].id == top_task_number(lists));
        }
    }
}

/// The next numbers are one above the largest that are given, to lists and to tasks.
pub proof fn the_next_numbers_are_one_above(lists: Seq<ListModel>, i: int, j: int)
    requires
        lists_fit(lists),
    ensures
        ({
            let data = numbered_data(lists);
            &&& 0 <= i < data.lists.len() ==> data.lists[i].id < data.next_list_id
            &&& 0 <= i < data.lists.len() && 0 <= j < data.lists[i].tasks.len()
                ==> data.lists[i].tasks[j].id < data.next_task_id
            &&& data.next_list_id == 1 || exists|k: int|
                0 <= k < data.lists.len() && #[trigger] data.lists[k].id + 1 == data.next_list_id
            &&& data.next_task_id == 1 || has_task_number(data.lists, data.next_task_id - 1)
        }),
{
    let data = numbered_data(lists);
    numbers_are_left(lists);
    let ids = list_ids(data.lists);
    the_largest_number_is_one_of_them(ids, i);
    the_largest_task_number_is_one_of_them(data.lists);
    if ids.len() > 0 {
        let k = choose|k: int| 0 <= k < ids.len() && #[trigger] ids[k] == top_number(ids);
        assert(data.lists[k].id + 1 == data.next_list_id);
    }
    if 0 <= i < data.lists.len() && 0 <= j < data.lists[i].tasks.len() {
        top_task_is_top(data.lists, i, j);
    }
}

/// Of each list, and then of its tasks, a message tells where a number that was not zero is given
/// anew: from which to which.
pub proof fn numbers_that_change_are_told(lists: Seq<ListModel>, n: int)
    requires
        0 <= n < lists.len(),
    ensures
        number_messages(lists, 0).len() == 0,
        ({
            let list = lists[n];
            let ids = Seq::new(lists.len(), |k: int| lists[k].id);
            number_messages(lists, n + 1) == number_messages(lists, n) + (if list.id != 0
                && stands_already(ids, n) {
                seq![
                    "Duplicate task list id "@ + decimal(list.id as nat)
                        + " detected; reassigned '"@ + list.name + "' to id "@ + decimal(
                        own_number(ids, n) as nat,
                    ) + "."@,
                ]
            } else {
                Seq::empty()
            }) + task_messages(list.name, list.tasks, list.tasks.len() as int)
        }),
{
    assert(list_ids(lists) == Seq::new(lists.len(), |k: int| lists[k].id));
    let before = number_messages(lists, n);
    assert(before + Seq::<Seq<char>>::empty() == before);
}

/// So it is of the tasks of a list.
pub proof fn task_numbers_that_change_are_told(
    list_name: Seq<char>,
    tasks: Seq<TaskModel>,
    n: int,
)
    requires
        0 <= n < tasks.len(),
    ensures
        task_messages(list_name, tasks, 0).len() == 0,
        ({
            let ids = Seq::new(tasks.len(), |k: int| tasks[k].id);
            task_messages(list_name, tasks, n + 1) == task_messages(list_name, tasks, n) + (
            if tasks[n].id != 0 && stands_already(ids, n) {
                seq![
                    "Duplicate task id "@ + decimal(tasks[n].id as nat) + " detected in list '"@
                        + list_name + "'; reassigned '"@ + tasks[n].title + "' to id "@ + decimal(
                        own_number(ids, n) as nat,
                    ) + "."@,
                ]
            } else {
                Seq::empty()
            })
        }),
{
    assert(task_ids(tasks) == Seq::new(tasks.len(), |k: int| tasks[k].id));
    let before = task_messages(list_name, tasks, n);
    assert(before + Seq::<Seq<char>>::empty() == before);
}

/// A list is saved in a file that its number names; files with a name before `.toml` are read;
/// those that are named like the files of lists are removed where no list has that name.
pub proof fn files_go_by_their_names(
    lists: Seq<ListModel>,
    present: Seq<Seq<char>>,
    name: Seq<char>,
    list_id: u64,
    i: int,
)
    ensures
        file_name(list_id) == "list_"@ + decimal(list_id as nat) + ".toml"@,
        file_names(lists).len() == lists.len(),
        0 <= i < lists.len() ==> file_names(lists)[i] == "list_"@ + decimal(lists[i].id as nat)
            + ".toml"@,
        is_config_name(name + ".toml"@) <==> name.len() > 0,
        is_config_name(name) ==> name.len() > 5 && name == name.take(name.len() - 5) + ".toml"@,
        is_generated_name("list_"@ + name + ".toml"@),
        is_generated_name(name) ==> name.len() >= 5 && name.take(5) == "list_"@ && name.skip(
            name.len() - 5,
        ) == ".toml"@,
        present.filter(is_stale(file_names(lists))).contains(name) <==> present.contains(name)
            && is_generated_name(name) && forall|k: int|
            0 <= k < lists.len() ==> name != "list_"@ + decimal((#[trigger] lists[k]).id as nat)
                + ".toml"@,
{
    reveal_strlit("list_");
    reveal_strlit(".toml");
    let named = name + ".toml"@;
    assert(named.skip(named.len() - 5) == ".toml"@);
    let generated = "list_"@ + name + ".toml"@;
    assert(generated.skip(generated.len() - 5) == ".toml"@);
    assert(generated.take(5) == "list_"@);
    if is_config_name(name) {
        assert(name == name.take(name.len() - 5) + name.skip(name.len() - 5));
    }
    let names = file_names(lists);
    filter_has(present, is_stale(names), name);
    if !names.contains(name) {
        assert forall|k: int| 0 <= k < lists.len() implies name != "list_"@ + decimal(
            (#[trigger] lists[k]).id as nat,
        ) + ".toml"@ by {
            assert(names[k] == file_name(lists[k].id));
        }
    } else {
        let k = choose|k: int| 0 <= k < names.len() && names[k] == name;
        assert(name == "list_"@ + decimal(lists[k].id as nat) + ".toml"@);
    }
}

proof fn positions_are_those_of_files(names: Seq<Seq<char>>, i: usize)
    requires
        names.len() <= usize::MAX,
    ensures
        config_positions(names).contains(i) <==> i < names.len() && is_config_name(names[i as int]),
    decreases names.len(),
{
    if names.len() > 0 {
        let rest = names.drop_last();
        positions_are_those_of_files(rest, i);
        let last = (names.len() - 1) as usize;
        let before = config_positions(rest);
        if is_config_name(names.last()) {
            let all = before.push(last);
            if all.contains(i) {
                let k = choose|k: int| 0 <= k < all.len() && all[k] == i;
                if k < before.len() {
                    assert(before[k] == i);
                }
            }
            if before.contains(i) {
                let k = choose|k: int| 0 <= k < before.len() && before[k] == i;
                assert(all[k] == i);
            }
            assert(all[before.len() as int] == last);
        }
        if i < rest.len() {
            assert(rest[i as int] == names[i as int]);
        }
    }
}

/// Files are read in the order of their names, and just those that are to be read.
pub proof fn files_are_read_by_name(names: Seq<Seq<char>>, i: usize, j: int, k: int)
    requires
        names.len() <= usize::MAX,
    ensures
        ({
            let order = stable_sort(config_positions(names), name_order(names));
            &&& order.contains(i) <==> i < names.len() && is_config_name(names[i as int])
            &&& 0 <= j < k < order.len() ==> !lex_less(names[order[k] as int], names[order[j] as int])
        }),
{
    file_order_is_weak(names);
    let less = name_order(names);
    stable_sort_sorts(config_positions(names), less);
    sorting_keeps(config_positions(names), less, i);
    positions_are_those_of_files(names, i);
    let order = stable_sort(config_positions(names), less);
    if 0 <= j < k < order.len() {
        assert(!less(order[k], order[j]));
    }
}

/// Data are kept where the user says, else in the directory for data of the machine, of the user,
/// or that the program is started in.
pub proof fn data_are_kept_where_the_user_says(path: Seq<char>, has_local: bool, has_data: bool)
    ensures
        trimmed(path).len() > 0 ==> chosen_dir(Some(path), has_local, has_data) == (
            DirBase::Given,
            trimmed(path),
        ),
        trimmed(path).len() == 0 ==> chosen_dir(Some(path), has_local, has_data) == chosen_dir(
            None,
            has_local,
            has_data,
        ),
        chosen_dir(None, true, has_data) == (DirBase::Local, "life-tracking"@),
        chosen_dir(None, false, true) == (DirBase::Data, "life-tracking"@),
        chosen_dir(None, false, false) == (DirBase::Here, ".life-tracking"@),
{
}

/// Files that are handed to the text editor are named by what they hold.
pub proof fn texts_are_named_by_what_they_hold(key: TaskKey)
    ensures
        TextPurpose::Notes.stem() == "notes"@,
        TextPurpose::Description(key).stem() == "description"@,
{
}

} // verus!
