//! What holds of the data that are loaded, and of the files that are written and removed.

use vstd::prelude::*;
use vstd::set_lib::*;

use crate::data::{is_overdue, not_overdue, overdue_count, DataModel};
use crate::data_laws::{
    has_nothing_overdue, has_sound_lists, have_own_numbers, is_numbered, pruning_keeps_numbers,
    pruning_leaves_nothing_overdue,
};
use crate::numbers::{
    is_taken, numbers_fit, own_number, own_number_above, own_numbers, own_numbers_differ,
    own_numbers_leave_one, taken_before, top_number_is_top,
};
use crate::seqs::{filter_all, filter_has};
use crate::sorting::{is_weak_order, sorting_keeps, stable_sort, stable_sort_sorts};
use crate::store::{
    config_positions, file_list, file_lists, file_message, file_messages, file_name, file_names,
    is_config_name, is_generated_name, is_stale, list_fault, list_ids, lists_fit, loaded_data,
    loaded_messages, name_order, number_messages, numbered_data, numbered_lists, numbered_tasks,
    seeded, seeded_numbers_stay, start_lists, task_ids, task_messages, top_task_number,
    ContentModel, FileModel,
};
use crate::task::{ListModel, TaskModel};
use crate::text::{
    decimal, decimal_value, lex_less_irreflexive, lex_less_total, lex_less_transitive,
};

verus! {

proof fn one_number_is_own(ids: Seq<u64>, i: int)
    requires
        numbers_fit(ids),
        0 <= i < ids.len(),
    ensures
        own_number(ids, i) > 0,
{
    top_number_is_top(ids, i);
    if is_taken(ids, i) {
        own_number_above(ids, i);
    }
}

/// No task has a number above the largest.
pub proof fn top_task_is_top(lists: Seq<ListModel>, i: int, k: int)
    requires
        0 <= i < lists.len(),
        0 <= k < lists[i].tasks.len(),
    ensures
        lists[i].tasks[k].id <= top_task_number(lists),
    decreases lists.len(),
{
    if i == lists.len() - 1 {
        top_number_is_top(task_ids(lists.last().tasks), k);
    } else {
        assert(lists.drop_last()[i] == lists[i]);
        top_task_is_top(lists.drop_last(), i, k);
    }
}

/// The data made of lists have their numbers in order.
pub proof fn numbered_data_are_numbered(lists: Seq<ListModel>)
    requires
        lists_fit(lists),
    ensures
        is_numbered(numbered_data(lists)),
{
    crate::store::numbers_are_left(lists);
    let data = numbered_data(lists);
    let own = numbered_lists(lists);
    let ids = list_ids(lists);
    assert(list_ids(own) == own_numbers(ids));
    assert forall|i: int| 0 <= i < data.lists.len() implies 0 < (#[trigger] data.lists[i]).id
        < data.next_list_id by {
        one_number_is_own(ids, i);
        top_number_is_top(list_ids(own), i);
    }
    assert forall|i: int, j: int| 0 <= i < j < data.lists.len() implies (
    #[trigger] data.lists[i]).id != (#[trigger] data.lists[j]).id by {
        own_numbers_differ(ids, i, j);
    }
    assert forall|i: int| 0 <= i < data.lists.len() implies have_own_numbers(
        (#[trigger] data.lists[i]).tasks,
        data.next_task_id,
    ) by {
        let tasks = lists[i].tasks;
        assert(numbers_fit(task_ids(tasks)));
        assert forall|k: int| 0 <= k < data.lists[i].tasks.len() implies 0 < (
        #[trigger] data.lists[i].tasks[k]).id < data.next_task_id by {
            one_number_is_own(task_ids(tasks), k);
            top_task_is_top(own, i, k);
        }
        assert forall|j: int, k: int| 0 <= j < k < data.lists[i].tasks.len() implies (
        #[trigger] data.lists[i].tasks[j]).id != (#[trigger] data.lists[i].tasks[k]).id by {
            own_numbers_differ(task_ids(tasks), j, k);
        }
    }
}

/// No two tasks of a list that was loaded have one number.
pub proof fn loaded_tasks_differ(lists: Seq<ListModel>, i: int, j: int, k: int)
    requires
        lists_fit(lists),
        0 <= i < lists.len(),
        0 <= j < k < lists[i].tasks.len(),
    ensures
        numbered_data(lists).lists[i].tasks[j].id != numbered_data(lists).lists[i].tasks[k].id,
{
    assert(numbers_fit(task_ids(lists[i].tasks)));
    own_numbers_differ(task_ids(lists[i].tasks), j, k);
}

proof fn own_numbers_are_not_taken(ids: Seq<u64>, n: int)
    requires
        numbers_fit(ids),
        0 <= n <= ids.len(),
    ensures
        forall|i: int| 0 <= i < ids.len() ==> !#[trigger] is_taken(own_numbers(ids), i),
        taken_before(own_numbers(ids), n) == 0,
    decreases n,
{
    let own = own_numbers(ids);
    assert forall|i: int| 0 <= i < ids.len() implies !#[trigger] is_taken(own, i) by {
        one_number_is_own(ids, i);
        if exists|j: int| 0 <= j < i && #[trigger] own[j] == own[i] {
            let j = choose|j: int| 0 <= j < i && #[trigger] own[j] == own[i];
            own_numbers_differ(ids, j, i);
        }
    }
    if n > 0 {
        own_numbers_are_not_taken(ids, n - 1);
    }
}

proof fn own_numbers_fit(ids: Seq<u64>)
    requires
        numbers_fit(ids),
    ensures
        numbers_fit(own_numbers(ids)),
        own_numbers(own_numbers(ids)) == own_numbers(ids),
{
    own_numbers_are_not_taken(ids, ids.len() as int);
    own_numbers_leave_one(ids);
    assert(own_numbers(own_numbers(ids)) == own_numbers(ids));
}

proof fn numbered_tasks_are_not_told_of(name: Seq<char>, tasks: Seq<TaskModel>, n: int)
    requires
        numbers_fit(task_ids(tasks)),
        0 <= n <= tasks.len(),
    ensures
        task_messages(name, numbered_tasks(tasks), n).len() == 0,
    decreases n,
{
    if n > 0 {
        numbered_tasks_are_not_told_of(name, tasks, n - 1);
        own_numbers_are_not_taken(task_ids(tasks), n);
        assert(task_ids(numbered_tasks(tasks)) == own_numbers(task_ids(tasks)));
        assert(!is_taken(own_numbers(task_ids(tasks)), n - 1));
    }
}

proof fn numbered_lists_are_not_told_of(lists: Seq<ListModel>, n: int)
    requires
        lists_fit(lists),
        0 <= n <= lists.len(),
    ensures
        number_messages(numbered_lists(lists), n).len() == 0,
    decreases n,
{
    if n > 0 {
        let own = numbered_lists(lists);
        numbered_lists_are_not_told_of(lists, n - 1);
        own_numbers_are_not_taken(list_ids(lists), n);
        assert(list_ids(own) == own_numbers(list_ids(lists)));
        assert(!is_taken(own_numbers(list_ids(lists)), n - 1));
        let tasks = lists[n - 1].tasks;
        assert(numbers_fit(task_ids(tasks)));
        numbered_tasks_are_not_told_of(own[n - 1].name, tasks, tasks.len() as int);
    }
}

/// Giving numbers changes nothing but numbers, and done again it changes nothing and says nothing.
pub proof fn numbering_again_changes_nothing(lists: Seq<ListModel>)
    requires
        lists_fit(lists),
    ensures
        ({
            let own = numbered_lists(lists);
            &&& own.len() == lists.len()
            &&& forall|i: int| 0 <= i < lists.len() ==> is_same_list(#[trigger] own[i], lists[i])
            &&& lists_fit(own)
            &&& numbered_lists(own) == own
            &&& number_messages(own, own.len() as int).len() == 0
        }),
{
    let own = numbered_lists(lists);
    let ids = list_ids(lists);
    assert forall|i: int| 0 <= i < lists.len() implies is_same_list(
        #[trigger] own[i],
        lists[i],
    ) by {
        assert(unnumbered_list(own[i]).tasks == unnumbered_list(lists[i]).tasks);
    }
    assert(list_ids(own) == own_numbers(ids));
    own_numbers_fit(ids);
    assert forall|i: int| 0 <= i < own.len() implies numbers_fit(
        task_ids(#[trigger] own[i].tasks),
    ) && numbered_tasks(own[i].tasks) == own[i].tasks by {
        let tasks = lists[i].tasks;
        assert(numbers_fit(task_ids(tasks)));
        own_numbers_fit(task_ids(tasks));
        assert(task_ids(own[i].tasks) == own_numbers(task_ids(tasks)));
        assert forall|k: int| 0 <= k < tasks.len() implies numbered_tasks(own[i].tasks)[k]
            == own[i].tasks[k] by {
            assert(own_numbers(own_numbers(task_ids(tasks)))[k] == own_numbers(task_ids(tasks))[k]);
        }
        assert(numbered_tasks(own[i].tasks) == own[i].tasks);
    }
    assert forall|i: int| 0 <= i < own.len() implies numbered_lists(own)[i] == own[i] by {
        assert(own_numbers(own_numbers(ids))[i] == own_numbers(ids)[i]);
        assert(numbered_tasks(own[i].tasks) == own[i].tasks);
    }
    assert(numbered_lists(own) == own);
    numbered_lists_are_not_told_of(lists, lists.len() as int);
}

proof fn read_lists_are_sound(files: Seq<FileModel>)
    ensures
        forall|i: int|
            0 <= i < file_lists(files).len() ==> list_fault(#[trigger] file_lists(files)[i])
                is None,
    decreases files.len(),
{
    if files.len() > 0 {
        read_lists_are_sound(files.drop_last());
    }
}

/// The lists to begin with could be loaded.
pub proof fn seeded_lists_are_sound(today: int)
    ensures
        forall|i: int| 0 <= i < 3 ==> list_fault(#[trigger] seeded(today)[i]) is None,
{
    let lists = seeded(today);
    reveal_strlit("Work");
    reveal_strlit("Health");
    reveal_strlit("Home");
    reveal_strlit("#4DA3FF");
    reveal_strlit("#44C777");
    reveal_strlit("#D67AFF");
    assert forall|i: int| 0 <= i < 3 implies list_fault(#[trigger] lists[i]) is None by {
        let name = lists[i].name;
        let color = lists[i].color_hex;
        assert(crate::text::trimmed(name) == name);
        assert(crate::text::trimmed(color) == color);
        assert(crate::color::normalized_color(color) == color);
        assert(crate::color::parsed_color(color) is Some);
    }
}

/// Whatever the files hold, the data that are loaded have their numbers in order, every list could
/// be loaded again, there is at least one, and nothing is overdue.
pub proof fn loaded_data_are_sound(files: Seq<FileModel>, today: int)
    requires
        lists_fit(file_lists(files)),
    ensures
        is_numbered(loaded_data(files, today)),
        has_sound_lists(loaded_data(files, today)),
        has_nothing_overdue(loaded_data(files, today), today),
        loaded_data(files, today).lists.len() > 0,
{
    let lists = start_lists(files, today);
    seeded_numbers_stay(today);
    numbered_data_are_numbered(lists);
    pruning_keeps_numbers(numbered_data(lists), today);
    pruning_leaves_nothing_overdue(numbered_data(lists), today);
    read_lists_are_sound(files);
    seeded_lists_are_sound(today);
    let data = loaded_data(files, today);
    assert forall|i: int| 0 <= i < data.lists.len() implies list_fault(#[trigger] data.lists[i])
        is None by {
        assert(list_fault(lists[i]) is None);
    }
}

/// A file that cannot be read, holds no TOML, or holds a list that is not sound contributes no list
/// and is told of by its name; any other contributes its list and is not told of.
pub proof fn each_file_is_read_or_told_of(file: FileModel)
    ensures
        file_list(file) is Some <==> file_message(file) is None,
        file_message(file) matches Some(message) ==> exists|rest: Seq<char>|
            message == "Config '"@ + file.name + rest,
        file_list(file) matches Some(list) ==> file.content == ContentModel::List(list),
{
    let lead = "Config '"@ + file.name;
    if let Some(message) = file_message(file) {
        match file.content {
            ContentModel::List(list) => {
                let rest = "' invalid: "@ + list_fault(list).unwrap();
                assert(message == lead + rest);
            },
            ContentModel::InvalidToml(error) => {
                let rest = "' has invalid TOML: "@ + error;
                assert(message == lead + rest);
            },
            ContentModel::Unreadable(error) => {
                let rest = "' could not be read: "@ + error;
                assert(message == lead + rest);
            },
        }
    }
}

/// The files that are told of and the lists that are read make up all files.
pub proof fn every_file_counts(files: Seq<FileModel>)
    ensures
        file_lists(files).len() + file_messages(files).len() == files.len(),
    decreases files.len(),
{
    if files.len() > 0 {
        every_file_counts(files.drop_last());
        each_file_is_read_or_told_of(files.last());
    }
}

/// Lists have files of their own: two numbers give two names.
pub proof fn file_names_differ(a: u64, b: u64)
    requires
        a != b,
    ensures
        file_name(a) != file_name(b),
{
    if file_name(a) == file_name(b) {
        let lead = "list_"@;
        let tail = ".toml"@;
        let x = decimal(a as nat);
        let y = decimal(b as nat);
        assert(file_name(a).len() == lead.len() + x.len() + tail.len());
        assert(x == file_name(a).subrange(lead.len() as int, (lead.len() + x.len()) as int));
        assert(y == file_name(b).subrange(lead.len() as int, (lead.len() + y.len()) as int));
        assert(x == y);
        decimal_value(a as nat);
        decimal_value(b as nat);
    }
}

/// A file that a list is saved in is one that is read again, and one that is removed once no list is
/// saved in it.
pub proof fn saved_file_is_read_again(list_id: u64)
    ensures
        is_config_name(file_name(list_id)),
        is_generated_name(file_name(list_id)),
{
    reveal_strlit("list_");
    reveal_strlit(".toml");
    let name = file_name(list_id);
    assert(name.skip(name.len() - 5) == ".toml"@);
    assert(name.take(5) == "list_"@);
    decimal_value(list_id as nat);
}

/// What is saved is never removed, and nothing is removed but files that are named like those that
/// lists are saved in.
pub proof fn saving_removes_nothing_else(lists: Seq<ListModel>, present: Seq<Seq<char>>, name: Seq<char>)
    ensures
        present.filter(is_stale(file_names(lists))).contains(name) <==> present.contains(name)
            && is_generated_name(name) && !file_names(lists).contains(name),
{
    filter_has(present, is_stale(file_names(lists)), name);
}

/// The lists of numbered data are saved in files of their own.
pub proof fn saved_files_differ(data: DataModel, i: int, j: int)
    requires
        is_numbered(data),
        0 <= i < j < data.lists.len(),
    ensures
        file_names(data.lists)[i] != file_names(data.lists)[j],
{
    assert(data.lists[i].id != data.lists[j].id);
    file_names_differ(data.lists[i].id, data.lists[j].id);
}

/// A task as it is written to a file: without its number.
pub open spec fn unnumbered_task(task: TaskModel) -> TaskModel {
    TaskModel { id: 0, ..task }
}

/// A list as it is written to a file: without its number and those of its tasks.
pub open spec fn unnumbered_list(list: ListModel) -> ListModel {
    ListModel {
        id: 0,
        tasks: list.tasks.map_values(|task: TaskModel| unnumbered_task(task)),
        ..list
    }
}

/// A list that differs in numbers only.
pub open spec fn is_same_list(a: ListModel, b: ListModel) -> bool {
    unnumbered_list(a) == unnumbered_list(b)
}

/// The files that hold the given lists.
pub open spec fn files_of(names: Seq<Seq<char>>, lists: Seq<ListModel>) -> Seq<FileModel> {
    Seq::new(
        lists.len(),
        |i: int|
            FileModel { name: names[i], content: ContentModel::List(unnumbered_list(lists[i])) },
    )
}

proof fn sound_files_are_read(names: Seq<Seq<char>>, lists: Seq<ListModel>, n: int)
    requires
        0 <= n <= lists.len(),
        forall|i: int| 0 <= i < lists.len() ==> list_fault(#[trigger] lists[i]) is None,
    ensures
        file_lists(files_of(names, lists).take(n)) == Seq::new(
            n as nat,
            |i: int| unnumbered_list(lists[i]),
        ),
        file_messages(files_of(names, lists).take(n)).len() == 0,
    decreases n,
{
    let files = files_of(names, lists).take(n);
    let expected = Seq::new(n as nat, |i: int| unnumbered_list(lists[i]));
    if n > 0 {
        sound_files_are_read(names, lists, n - 1);
        assert(files.drop_last() == files_of(names, lists).take(n - 1));
        assert(list_fault(lists[n - 1]) is None);
        assert(file_list(files.last()) == Some(unnumbered_list(lists[n - 1])));
        assert(Seq::new((n - 1) as nat, |i: int| unnumbered_list(lists[i])).push(
            unnumbered_list(lists[n - 1]),
        ) == expected);
    } else {
        assert(file_lists(files) == expected);
    }
}

/// What is saved is loaded again: the files of sound lists, some or more, are read without a word,
/// and give the same lists in the order of the files, but for numbers and for tasks that have become
/// overdue.
pub proof fn saved_lists_are_loaded_again(
    names: Seq<Seq<char>>,
    lists: Seq<ListModel>,
    today: int,
)
    requires
        lists.len() > 0,
        names.len() == lists.len(),
        forall|i: int| 0 <= i < lists.len() ==> list_fault(#[trigger] lists[i]) is None,
        lists_fit(file_lists(files_of(names, lists))),
    ensures
        ({
            let data = numbered_data(start_lists(files_of(names, lists), today));
            &&& loaded_data(files_of(names, lists), today) == data.pruned(today)
            &&& data.lists.len() == lists.len()
            &&& forall|i: int|
                0 <= i < lists.len() ==> is_same_list(#[trigger] data.lists[i], lists[i])
        }),
        file_messages(files_of(names, lists)).len() == 0,
        number_messages(
            start_lists(files_of(names, lists), today),
            lists.len() as int,
        ).len() == 0,
{
    let files = files_of(names, lists);
    sound_files_are_read(names, lists, lists.len() as int);
    assert(files.take(lists.len() as int) == files);
    let read = file_lists(files);
    let data = numbered_data(start_lists(files, today));
    assert forall|i: int| 0 <= i < lists.len() implies is_same_list(
        #[trigger] data.lists[i],
        lists[i],
    ) by {
        let own = data.lists[i];
        assert(read[i] == unnumbered_list(lists[i]));
        assert(own.tasks == numbered_tasks(read[i].tasks));
        assert(unnumbered_list(own).tasks == unnumbered_list(lists[i]).tasks);
    }
    unnumbered_lists_are_not_told_of(read, read.len() as int);
}

proof fn unnumbered_lists_are_not_told_of(lists: Seq<ListModel>, n: int)
    requires
        0 <= n <= lists.len(),
        forall|i: int| 0 <= i < lists.len() ==> (#[trigger] lists[i]).id == 0,
        forall|i: int, k: int|
            0 <= i < lists.len() && 0 <= k < lists[i].tasks.len() ==> (
            #[trigger] lists[i].tasks[k]).id == 0,
    ensures
        number_messages(lists, n).len() == 0,
    decreases n,
{
    if n > 0 {
        unnumbered_lists_are_not_told_of(lists, n - 1);
        assert(lists[n - 1].id == 0);
        unnumbered_tasks_are_not_told_of(
            lists[n - 1].name,
            lists[n - 1].tasks,
            lists[n - 1].tasks.len() as int,
        );
    }
}

proof fn unnumbered_tasks_are_not_told_of(name: Seq<char>, tasks: Seq<TaskModel>, n: int)
    requires
        0 <= n <= tasks.len(),
        forall|k: int| 0 <= k < tasks.len() ==> (#[trigger] tasks[k]).id == 0,
    ensures
        task_messages(name, tasks, n).len() == 0,
    decreases n,
{
    if n > 0 {
        unnumbered_tasks_are_not_told_of(name, tasks, n - 1);
        assert(tasks[n - 1].id == 0);
    }
}

/// A name of a file in the data directory after lists are saved: a file that is written, or one that
/// was there and is not removed.
pub open spec fn is_left(lists: Seq<ListModel>, present: Seq<Seq<char>>, name: Seq<char>) -> bool {
    file_names(lists).contains(name) || (present.contains(name) && !present.filter(
        is_stale(file_names(lists)),
    ).contains(name))
}

/// The order in which the files with the given names are read.
pub open spec fn reading_order(names: Seq<Seq<char>>) -> Seq<usize> {
    stable_sort(config_positions(names), name_order(names))
}

/// The position of the list that is saved in the file with the given name.
pub open spec fn saved_index(lists: Seq<ListModel>, name: Seq<char>) -> int {
    choose|i: int| 0 <= i < lists.len() && #[trigger] file_names(lists)[i] == name
}

/// Which list each file that is read holds.
pub open spec fn read_indices(lists: Seq<ListModel>, names: Seq<Seq<char>>) -> Seq<int> {
    let order = reading_order(names);
    Seq::new(order.len(), |k: int| saved_index(lists, names[order[k] as int]))
}

/// The files of a directory that lists were saved in, as they are read.
pub open spec fn saved_files(lists: Seq<ListModel>, names: Seq<Seq<char>>) -> Seq<FileModel> {
    let order = reading_order(names);
    Seq::new(
        order.len(),
        |k: int|
            FileModel {
                name: names[order[k] as int],
                content: ContentModel::List(
                    unnumbered_list(lists[read_indices(lists, names)[k]]),
                ),
            },
    )
}

/// Each position below `n` once, in some order.
pub open spec fn is_reordering(indices: Seq<int>, n: nat) -> bool {
    &&& indices.len() == n
    &&& indices.no_duplicates()
    &&& forall|k: int| 0 <= k < indices.len() ==> 0 <= #[trigger] indices[k] < n
}

/// The order of names is one that sorting keeps to.
pub proof fn file_order_is_weak(names: Seq<Seq<char>>)
    ensures
        is_weak_order(name_order(names)),
{
    let less = name_order(names);
    assert forall|a: usize, b: usize| #[trigger] less(a, b) implies !less(b, a) by {
        if less(b, a) {
            lex_less_transitive(names[a as int], names[b as int], names[a as int]);
            lex_less_irreflexive(names[a as int]);
        }
    }
    assert forall|a: usize, b: usize, c: usize| #[trigger] less(a, b) implies #[trigger] less(a, c)
        || less(c, b) by {
        lex_less_total(names[a as int], names[c as int]);
        if !less(a, c) && names[a as int] != names[c as int] {
            lex_less_transitive(names[c as int], names[a as int], names[b as int]);
        }
    }
}

proof fn config_positions_are_all(names: Seq<Seq<char>>)
    requires
        names.len() <= usize::MAX,
    ensures
        config_positions(names).no_duplicates(),
        forall|p: usize| #[trigger]
            config_positions(names).contains(p) <==> p < names.len() && is_config_name(
                names[p as int],
            ),
    decreases names.len(),
{
    let all = config_positions(names);
    if names.len() > 0 {
        let rest = names.drop_last();
        let before = config_positions(rest);
        let last = (names.len() - 1) as usize;
        config_positions_are_all(rest);
        assert forall|p: usize| #[trigger] all.contains(p) <==> p < names.len() && is_config_name(
            names[p as int],
        ) by {
            assert(before.contains(p) <==> p < rest.len() && is_config_name(rest[p as int]));
            if all.contains(p) {
                let k = choose|k: int| 0 <= k < all.len() && all[k] == p;
                if k < before.len() {
                    assert(before[k] == p);
                }
            }
            if before.contains(p) {
                let k = choose|k: int| 0 <= k < before.len() && before[k] == p;
                assert(all[k] == p);
            }
            if is_config_name(names.last()) {
                assert(all[before.len() as int] == last);
            }
        }
        assert(!before.contains(last));
        assert forall|a: int, b: int| 0 <= a < b < all.len() implies all[a] != all[b] by {
            assert(before[a] == all[a]);
            if b < before.len() {
                assert(before[b] == all[b]);
            } else {
                assert(before.contains(before[a]));
            }
        }
    }
}

proof fn reading_order_is_all(names: Seq<Seq<char>>)
    requires
        names.len() <= usize::MAX,
    ensures
        reading_order(names).no_duplicates(),
        forall|p: usize| #[trigger]
            reading_order(names).contains(p) <==> p < names.len() && is_config_name(
                names[p as int],
            ),
{
    let all = config_positions(names);
    let less = name_order(names);
    config_positions_are_all(names);
    file_order_is_weak(names);
    stable_sort_sorts(all, less);
    all.lemma_multiset_has_no_duplicates();
    stable_sort(all, less).lemma_multiset_has_no_duplicates_conv();
    assert forall|p: usize| #[trigger] reading_order(names).contains(p) <==> p < names.len()
        && is_config_name(names[p as int]) by {
        sorting_keeps(all, less, p);
        assert(all.contains(p) <==> p < names.len() && is_config_name(names[p as int]));
    }
}

proof fn each_list_is_read_once(
    lists: Seq<ListModel>,
    present: Seq<Seq<char>>,
    names: Seq<Seq<char>>,
)
    requires
        forall|i: int, j: int|
            0 <= i < j < lists.len() ==> (#[trigger] lists[i]).id != (#[trigger] lists[j]).id,
        forall|name: Seq<char>| #[trigger]
            present.contains(name) && is_config_name(name) ==> is_generated_name(name),
        names.len() <= usize::MAX,
        names.no_duplicates(),
        forall|name: Seq<char>| #[trigger] names.contains(name) <==> is_left(lists, present, name),
    ensures
        is_reordering(read_indices(lists, names), lists.len()),
{
    let order = reading_order(names);
    let indices = read_indices(lists, names);
    let written = file_names(lists);
    reading_order_is_all(names);
    assert forall|k: int| 0 <= k < order.len() implies 0 <= #[trigger] indices[k] < lists.len()
        && written[indices[k]] == names[order[k] as int] by {
        let p = order[k];
        let name = names[p as int];
        assert(order.contains(p));
        assert(names.contains(name));
        filter_has(present, is_stale(written), name);
        assert(written.contains(name));
        let i = choose|i: int| 0 <= i < written.len() && written[i] == name;
        assert(0 <= i < lists.len() && file_names(lists)[i] == name);
    }
    assert forall|a: int, b: int| 0 <= a < b < indices.len() implies indices[a] != indices[b] by {
        assert(order[a] != order[b]);
        assert(order.contains(order[a]) && order.contains(order[b]));
        assert(0 <= indices[a] < lists.len());
        assert(0 <= indices[b] < lists.len());
        assert(names[order[a] as int] != names[order[b] as int]);
    }
    assert forall|i: int| 0 <= i < lists.len() implies indices.to_set().contains(i) by {
        let name = written[i];
        assert(written.contains(name));
        assert(is_left(lists, present, name));
        assert(names.contains(name));
        saved_file_is_read_again(lists[i].id);
        let p = choose|p: int| 0 <= p < names.len() && names[p] == name;
        assert(order.contains(p as usize));
        let k = choose|k: int| 0 <= k < order.len() && order[k] == p as usize;
        assert(0 <= indices[k] < lists.len() && written[indices[k]] == name);
        if indices[k] < i {
            assert(lists[indices[k]].id != lists[i].id);
            file_names_differ(lists[indices[k]].id, lists[i].id);
        } else if i < indices[k] {
            assert(lists[i].id != lists[indices[k]].id);
            file_names_differ(lists[i].id, lists[indices[k]].id);
        }
        assert(indices[k] == i);
        assert(indices.contains(i));
    }
    indices.unique_seq_to_set();
    lemma_int_range(0, lists.len() as int);
    assert(indices.to_set() =~= set_int_range(0, lists.len() as int)) by {
        assert forall|i: int| indices.to_set().contains(i) implies 0 <= i < lists.len() by {
            let k = choose|k: int| 0 <= k < indices.len() && indices[k] == i;
            assert(0 <= indices[k] < lists.len());
        }
    }
}

proof fn nothing_overdue_is_nothing_removed(data: DataModel, today: int, n: int)
    requires
        has_nothing_overdue(data, today),
        0 <= n <= data.lists.len(),
    ensures
        data.pruned(today) == data,
        overdue_count(data.lists.take(n), today) == 0,
    decreases n,
{
    let after = data.pruned(today);
    assert forall|i: int| 0 <= i < data.lists.len() implies after.lists[i] == data.lists[i] by {
        let tasks = data.lists[i].tasks;
        assert forall|k: int| 0 <= k < tasks.len() implies not_overdue(today)(
            #[trigger] tasks[k],
        ) by {
            assert(!is_overdue(data.lists[i].tasks[k], today));
        }
        filter_all(tasks, not_overdue(today));
    }
    assert(after.lists == data.lists);
    if n > 0 {
        nothing_overdue_is_nothing_removed(data, today, n - 1);
        let some = data.lists.take(n);
        assert(some.drop_last() == data.lists.take(n - 1));
        assert(after.lists[n - 1].tasks == data.lists[n - 1].tasks);
    }
}

/// What is saved is loaded again. Valid lists with numbers of their own and nothing overdue are
/// saved in a directory that holds no other files with lists; the files that are there then are read
/// in the order of their names. Not a word is said, each list comes back once, and in each list the
/// tasks come back in their order, all as they were but for numbers.
pub proof fn saved_data_are_loaded_again(
    data: DataModel,
    present: Seq<Seq<char>>,
    names: Seq<Seq<char>>,
    today: int,
)
    requires
        data.lists.len() > 0,
        forall|i: int, j: int|
            0 <= i < j < data.lists.len() ==> (#[trigger] data.lists[i]).id != (
            #[trigger] data.lists[j]).id,
        has_sound_lists(data),
        has_nothing_overdue(data, today),
        forall|name: Seq<char>| #[trigger]
            present.contains(name) && is_config_name(name) ==> is_generated_name(name),
        names.len() <= usize::MAX,
        names.no_duplicates(),
        forall|name: Seq<char>| #[trigger]
            names.contains(name) <==> is_left(data.lists, present, name),
        lists_fit(file_lists(saved_files(data.lists, names))),
    ensures
        loaded_messages(saved_files(data.lists, names), today).len() == 0,
        is_reordering(read_indices(data.lists, names), data.lists.len()),
        ({
            let loaded = loaded_data(saved_files(data.lists, names), today).lists;
            &&& loaded.len() == data.lists.len()
            &&& forall|k: int|
                0 <= k < loaded.len() ==> is_same_list(
                    #[trigger] loaded[k],
                    data.lists[read_indices(data.lists, names)[k]],
                )
        }),
{
    let lists = data.lists;
    let order = reading_order(names);
    let indices = read_indices(lists, names);
    each_list_is_read_once(lists, present, names);
    let read = Seq::new(indices.len(), |k: int| lists[indices[k]]);
    let read_names = Seq::new(indices.len(), |k: int| names[order[k] as int]);
    let files = saved_files(lists, names);
    assert(files == files_of(read_names, read));
    assert forall|k: int| 0 <= k < read.len() implies list_fault(#[trigger] read[k]) is None by {
        assert(0 <= indices[k] < lists.len());
    }
    saved_lists_are_loaded_again(read_names, read, today);
    let start = start_lists(files, today);
    sound_files_are_read(read_names, read, read.len() as int);
    assert(files.take(read.len() as int) == files);
    assert(start.len() == lists.len());
    let whole = numbered_data(start);
    assert forall|i: int, j: int|
        0 <= i < whole.lists.len() && 0 <= j < whole.lists[i].tasks.len() implies !is_overdue(
        #[trigger] whole.lists[i].tasks[j],
        today,
    ) by {
        let tasks = whole.lists[i].tasks;
        assert(is_same_list(whole.lists[i], read[i]));
        assert(0 <= indices[i] < lists.len());
        assert(unnumbered_list(whole.lists[i]).tasks.len() == unnumbered_list(
            read[i],
        ).tasks.len());
        assert(unnumbered_list(whole.lists[i]).tasks[j] == unnumbered_list(read[i]).tasks[j]);
        assert(unnumbered_task(tasks[j]) == unnumbered_task(lists[indices[i]].tasks[j]));
        assert(!is_overdue(lists[indices[i]].tasks[j], today));
    }
    nothing_overdue_is_nothing_removed(whole, today, whole.lists.len() as int);
    assert(whole.lists.take(whole.lists.len() as int) == whole.lists);
}

} // verus!
