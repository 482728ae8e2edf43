//! What holds of the data whatever is done to them.

use vstd::prelude::*;
use vstd::seq_lib::*;

use crate::color::{normalized_color, normalized_color_is_stable, parsed_color};
use crate::data::{
    delete_step, due_date_step, has_list_id, has_task_id, is_overdue, lacks_list_id, lacks_task_id,
    move_step, new_list, new_task, not_overdue, overdue_count, pruned_lists, removed_count,
    set_color, set_due_date, set_name, set_priority, toggle, DataModel,
};
use crate::seqs::{
    filter_all, filter_by_more, filter_has, filter_len, first_where, first_where_exists,
    first_where_is, first_where_is_none, is_first_where,
};
use crate::store::list_fault;
use crate::task::{ListModel, TaskKey, TaskModel};
use crate::text::{trimmed, trimmed_is_trimmed};

verus! {

/// No completed task has a due date that lies more than a week back.
pub open spec fn has_nothing_overdue(data: DataModel, today: int) -> bool {
    forall|i: int, j: int|
        0 <= i < data.lists.len() && 0 <= j < data.lists[i].tasks.len() ==> !is_overdue(
            #[trigger] data.lists[i].tasks[j],
            today,
        )
}

/// After every edit no completed task is left whose due date lies more than a week back.
pub proof fn pruning_leaves_nothing_overdue(data: DataModel, today: int)
    ensures
        has_nothing_overdue(data.pruned(today), today),
{
    let after = data.pruned(today);
    assert forall|i: int, j: int|
        0 <= i < after.lists.len() && 0 <= j < after.lists[i].tasks.len() implies !is_overdue(
        #[trigger] after.lists[i].tasks[j],
        today,
    ) by {
        let kept = data.lists[i].tasks.filter(not_overdue(today));
        assert(after.lists[i].tasks == kept);
        filter_has(data.lists[i].tasks, not_overdue(today), kept[j]);
        assert(kept.contains(kept[j]));
    }
}

/// Every task that is open, or whose due date lies no more than a week back, is kept.
pub proof fn pruning_keeps_the_rest(data: DataModel, today: int, i: int, task: TaskModel)
    requires
        0 <= i < data.lists.len(),
        data.lists[i].tasks.contains(task),
        !task.completed || today <= task.due_date + 7,
    ensures
        data.pruned(today).lists[i].tasks.contains(task),
{
    filter_has(data.lists[i].tasks, not_overdue(today), task);
}

proof fn counts_add_up(lists: Seq<ListModel>, first: int, second: int)
    requires
        first <= second,
    ensures
        overdue_count(lists, first) + overdue_count(pruned_lists(lists, first), second)
            == overdue_count(lists, second),
    decreases lists.len(),
{
    if lists.len() > 0 {
        let once = pruned_lists(lists, first);
        let tasks = lists.last().tasks;
        counts_add_up(lists.drop_last(), first, second);
        assert(once.drop_last() == pruned_lists(lists.drop_last(), first));
        assert(once.last().tasks == tasks.filter(not_overdue(first)));
        filter_by_more(tasks, not_overdue(first), not_overdue(second));
        filter_len(tasks, not_overdue(first));
        filter_len(tasks.filter(not_overdue(first)), not_overdue(second));
    }
}

/// Pruning on a day and again on a later one is pruning on the later day alone, and as many tasks
/// are removed: the two counts add up to the one. On the same day the second removes nothing.
pub proof fn pruning_again_later(data: DataModel, first: int, second: int)
    requires
        first <= second,
    ensures
        data.pruned(first).pruned(second) == data.pruned(second),
        overdue_count(data.lists, first) + overdue_count(data.pruned(first).lists, second)
            == overdue_count(data.lists, second),
        overdue_count(data.lists, second) <= usize::MAX ==> removed_count(data.lists, first)
            + removed_count(data.pruned(first).lists, second) == removed_count(data.lists, second),
        first == second ==> data.pruned(first).pruned(second) == data.pruned(first)
            && removed_count(data.pruned(first).lists, second) == 0,
{
    let once = data.pruned(first);
    let twice = once.pruned(second);
    let late = data.pruned(second);
    assert forall|i: int| 0 <= i < data.lists.len() implies twice.lists[i] == late.lists[i] by {
        filter_by_more(data.lists[i].tasks, not_overdue(first), not_overdue(second));
    }
    assert(twice.lists == late.lists);
    counts_add_up(data.lists, first, second);
}

proof fn first_of_filtered(s: Seq<TaskModel>, id: u64, keep: spec_fn(TaskModel) -> bool)
    requires
        first_where(s, has_task_id(id)) matches Some(j) && keep(s[j]),
    ensures
        first_where(s.filter(keep), has_task_id(id)) matches Some(k) && s.filter(keep)[k]
            == s[first_where(s, has_task_id(id)).unwrap()],
    decreases s.len(),
{
    let p = has_task_id(id);
    let j = choose|j: int| is_first_where(s, p, j);
    first_where_is(s, p, j);
    reveal(Seq::filter);
    let rest = s.drop_last();
    if j == s.len() - 1 {
        let kept = rest.filter(keep);
        assert forall|k: int| 0 <= k < kept.len() implies !p(#[trigger] kept[k]) by {
            filter_has(rest, keep, kept[k]);
            assert(kept.contains(kept[k]));
            let m = choose|m: int| 0 <= m < rest.len() && rest[m] == kept[k];
            assert(!p(s[m]));
        }
        let all = s.filter(keep);
        assert(all == kept.push(s.last()));
        assert forall|k: int| 0 <= k < kept.len() implies !p(#[trigger] all[k]) by {
            assert(!p(kept[k]));
        }
        assert(is_first_where(all, p, kept.len() as int));
        first_where_is(all, p, kept.len() as int);
    } else {
        assert forall|k: int| 0 <= k < j implies !p(#[trigger] rest[k]) by {
            assert(!p(s[k]));
        }
        assert(is_first_where(rest, p, j));
        first_where_is(rest, p, j);
        first_of_filtered(rest, id, keep);
        let kept = rest.filter(keep);
        let k = choose|k: int| is_first_where(kept, p, k);
        first_where_is(kept, p, k);
        let all = s.filter(keep);
        assert forall|m: int| 0 <= m < k implies !p(#[trigger] all[m]) by {
            assert(all[m] == kept[m]);
            assert(!p(kept[m]));
        }
        assert(all[k] == kept[k]);
        assert(is_first_where(all, p, k));
        first_where_is(all, p, k);
    }
}

proof fn list_index_of_pruned(data: DataModel, today: int, list_id: u64)
    ensures
        data.pruned(today).list_index(list_id) == data.list_index(list_id),
{
    let p = has_list_id(list_id);
    let after = data.pruned(today);
    if data.list_index(list_id) is Some {
        let i = choose|i: int| is_first_where(data.lists, p, i);
        assert forall|k: int| 0 <= k < i implies !p(#[trigger] after.lists[k]) by {
            assert(!p(data.lists[k]));
        }
        assert(is_first_where(after.lists, p, i));
        first_where_is(after.lists, p, i);
    } else {
        assert forall|k: int| 0 <= k < after.lists.len() implies !p(#[trigger] after.lists[k]) by {
            if p(data.lists[k]) {
                first_where_exists(data.lists, p, k);
            }
        }
        first_where_is_none(after.lists, p);
    }
}

/// A task that is not overdue is still read by its key after pruning.
pub proof fn pruning_keeps_the_task(data: DataModel, today: int, key: TaskKey)
    requires
        data.task(key) matches Some(task) && !is_overdue(task, today),
    ensures
        data.pruned(today).task(key) == data.task(key),
{
    list_index_of_pruned(data, today, key.list_id);
    let i = data.list_index(key.list_id).unwrap();
    first_where_bounds_lists(data.lists, key.list_id);
    first_of_filtered(data.lists[i].tasks, key.task_id, not_overdue(today));
}

proof fn first_where_bounds_lists(lists: Seq<ListModel>, list_id: u64)
    ensures
        first_where(lists, has_list_id(list_id)) matches Some(i) ==> is_first_where(
            lists,
            has_list_id(list_id),
            i,
        ),
{
}

proof fn first_where_bounds_tasks(tasks: Seq<TaskModel>, task_id: u64)
    ensures
        first_where(tasks, has_task_id(task_id)) matches Some(j) ==> is_first_where(
            tasks,
            has_task_id(task_id),
            j,
        ),
{
}

/// An edit that keeps the number of a task.
pub open spec fn keeps_number(edit: spec_fn(TaskModel) -> TaskModel) -> bool {
    forall|task: TaskModel| (#[trigger] edit(task)).id == task.id
}

proof fn positions_stay(
    data: DataModel,
    key: TaskKey,
    edit: spec_fn(TaskModel) -> TaskModel,
    other: TaskKey,
)
    requires
        keeps_number(edit),
        data.position(key) is Some,
    ensures
        data.edited_task(key, edit).unwrap().position(other) == data.position(other),
{
    let (i, j) = data.position(key).unwrap();
    first_where_bounds_lists(data.lists, key.list_id);
    first_where_bounds_tasks(data.lists[i].tasks, key.task_id);
    let after = data.edited_task(key, edit).unwrap();
    let p = has_list_id(other.list_id);
    assert forall|k: int| 0 <= k < data.lists.len() implies p(#[trigger] after.lists[k]) == p(
        data.lists[k],
    ) by {}
    match data.list_index(other.list_id) {
        Some(n) => {
            assert(is_first_where(data.lists, p, n));
            assert forall|k: int| 0 <= k < n implies !p(#[trigger] after.lists[k]) by {
                assert(!p(data.lists[k]));
            }
            assert(is_first_where(after.lists, p, n));
            first_where_is(after.lists, p, n);
            let q = has_task_id(other.task_id);
            let before_tasks = data.lists[n].tasks;
            let after_tasks = after.lists[n].tasks;
            assert forall|k: int| 0 <= k < before_tasks.len() implies q(#[trigger] after_tasks[k])
                == q(before_tasks[k]) by {}
            match first_where(before_tasks, q) {
                Some(m) => {
                    assert(is_first_where(before_tasks, q, m));
                    assert forall|k: int| 0 <= k < m implies !q(#[trigger] after_tasks[k]) by {
                        assert(!q(before_tasks[k]));
                    }
                    assert(is_first_where(after_tasks, q, m));
                    first_where_is(after_tasks, q, m);
                },
                None => {
                    assert forall|k: int| 0 <= k < after_tasks.len() implies !q(
                        #[trigger] after_tasks[k],
                    ) by {
                        if q(before_tasks[k]) {
                            first_where_exists(before_tasks, q, k);
                        }
                    }
                    first_where_is_none(after_tasks, q);
                },
            }
        },
        None => {
            assert forall|k: int| 0 <= k < after.lists.len() implies !p(
                #[trigger] after.lists[k],
            ) by {
                if p(data.lists[k]) {
                    first_where_exists(data.lists, p, k);
                }
            }
            first_where_is_none(after.lists, p);
        },
    }
}

/// What is written to a task is read back from it.
pub proof fn edited_task_is_read_back(
    data: DataModel,
    key: TaskKey,
    edit: spec_fn(TaskModel) -> TaskModel,
)
    requires
        keeps_number(edit),
        data.task(key) is Some,
    ensures
        data.edited_task(key, edit) matches Some(after) && after.task(key) == Some(
            edit(data.task(key).unwrap()),
        ),
{
    let (i, j) = data.position(key).unwrap();
    first_where_bounds_lists(data.lists, key.list_id);
    first_where_bounds_tasks(data.lists[i].tasks, key.task_id);
    positions_stay(data, key, edit, key);
}

/// An edit of a task leaves every other task as it is.
pub proof fn other_tasks_stay(
    data: DataModel,
    key: TaskKey,
    edit: spec_fn(TaskModel) -> TaskModel,
    other: TaskKey,
)
    requires
        keeps_number(edit),
        data.position(key) is Some,
        other != key,
    ensures
        data.edited_task(key, edit) matches Some(after) && after.task(other) == data.task(other),
{
    let (i, j) = data.position(key).unwrap();
    first_where_bounds_lists(data.lists, key.list_id);
    first_where_bounds_tasks(data.lists[i].tasks, key.task_id);
    positions_stay(data, key, edit, other);
    if let Some((m, n)) = data.position(other) {
        first_where_bounds_lists(data.lists, other.list_id);
        first_where_bounds_tasks(data.lists[m].tasks, other.task_id);
    }
}

/// A task that is marked as completed records the day; one that is marked as open records none.
/// Unless its due date lies more than a week back, it can be read afterwards.
pub proof fn toggling_records_the_day(data: DataModel, key: TaskKey, today: int)
    requires
        data.task(key) is Some,
    ensures
        data.edited_task(key, toggle(today)) matches Some(after) && after.task(key) matches Some(
            task,
        ) && {
            let before = data.task(key).unwrap();
            &&& task.completed == !before.completed
            &&& task.completed_on == (if before.completed {
                None
            } else {
                Some(today)
            })
            &&& today <= before.due_date + 7 ==> after.pruned(today).task(key) == Some(task)
        },
{
    edited_task_is_read_back(data, key, toggle(today));
    let after = data.edited_task(key, toggle(today)).unwrap();
    let before = data.task(key).unwrap();
    if today <= before.due_date + 7 {
        pruning_keeps_the_task(after, today, key);
    }
}

/// An open task that is marked as completed and as open again is as it was.
pub proof fn toggling_twice_gives_the_task_back(data: DataModel, key: TaskKey, today: int, later: int)
    requires
        data.task(key) matches Some(task) && !task.completed && task.completed_on is None,
    ensures
        data.edited_task(key, toggle(today)) matches Some(once) && once.edited_task(
            key,
            toggle(later),
        ) == Some(data),
{
    let (i, j) = data.position(key).unwrap();
    first_where_bounds_lists(data.lists, key.list_id);
    first_where_bounds_tasks(data.lists[i].tasks, key.task_id);
    positions_stay(data, key, toggle(today), key);
    let once = data.edited_task(key, toggle(today)).unwrap();
    let twice = once.edited_task(key, toggle(later)).unwrap();
    let before = data.lists[i].tasks[j];
    assert(twice.lists[i].tasks[j] == before);
    assert(twice.lists[i].tasks == data.lists[i].tasks);
    assert(twice.lists[i] == data.lists[i]);
    assert(twice.lists == data.lists);
}

/// A deleted task is there no more, and every other task of every list is as it was.
pub proof fn deleted_task_is_gone(data: DataModel, key: TaskKey, other: TaskKey)
    requires
        data.task(key) is Some,
        other != key,
    ensures
        data.without_task(key) matches Some(after) && after.task(key) is None && after.task(other)
            == data.task(other),
{
    let (i, j) = data.position(key).unwrap();
    first_where_bounds_lists(data.lists, key.list_id);
    first_where_bounds_tasks(data.lists[i].tasks, key.task_id);
    let after = data.without_task(key).unwrap();
    lists_stay(data, after, key.list_id);
    lists_stay(data, after, other.list_id);
    let keep = lacks_task_id(key.task_id);
    let tasks = data.lists[i].tasks;
    let kept = tasks.filter(keep);
    assert forall|k: int| 0 <= k < kept.len() implies !has_task_id(key.task_id)(
        #[trigger] kept[k],
    ) by {
        filter_has(tasks, keep, kept[k]);
        assert(kept.contains(kept[k]));
    }
    first_where_is_none(kept, has_task_id(key.task_id));
    assert(after.task(key) is None);
    if let Some(m) = data.list_index(other.list_id) {
        if m == i {
            first_where_bounds_lists(data.lists, other.list_id);
            assert(other.task_id != key.task_id);
            match first_where(tasks, has_task_id(other.task_id)) {
                Some(n) => {
                    first_where_bounds_tasks(tasks, other.task_id);
                    first_of_filtered(tasks, other.task_id, keep);
                },
                None => {
                    assert forall|k: int| 0 <= k < kept.len() implies !has_task_id(other.task_id)(
                        #[trigger] kept[k],
                    ) by {
                        filter_has(tasks, keep, kept[k]);
                        assert(kept.contains(kept[k]));
                        let n = choose|n: int| 0 <= n < tasks.len() && tasks[n] == kept[k];
                        if has_task_id(other.task_id)(tasks[n]) {
                            first_where_exists(tasks, has_task_id(other.task_id), n);
                        }
                    }
                    first_where_is_none(kept, has_task_id(other.task_id));
                },
            }
        }
    }
}

/// Lists that keep their numbers keep their positions.
proof fn lists_stay(data: DataModel, after: DataModel, list_id: u64)
    requires
        after.lists.len() == data.lists.len(),
        forall|k: int| 0 <= k < data.lists.len() ==> (#[trigger] after.lists[k]).id
            == data.lists[k].id,
    ensures
        after.list_index(list_id) == data.list_index(list_id),
        data.list_index(list_id) matches Some(i) ==> is_first_where(
            data.lists,
            has_list_id(list_id),
            i,
        ),
{
    let p = has_list_id(list_id);
    match data.list_index(list_id) {
        Some(i) => {
            assert(is_first_where(data.lists, p, i));
            assert forall|k: int| 0 <= k < i implies !p(#[trigger] after.lists[k]) by {
                assert(!p(data.lists[k]));
                assert(after.lists[k].id == data.lists[k].id);
            }
            assert(after.lists[i].id == data.lists[i].id);
            assert(is_first_where(after.lists, p, i));
            first_where_is(after.lists, p, i);
        },
        None => {
            assert forall|k: int| 0 <= k < after.lists.len() implies !p(
                #[trigger] after.lists[k],
            ) by {
                assert(after.lists[k].id == data.lists[k].id);
                if p(data.lists[k]) {
                    first_where_exists(data.lists, p, k);
                }
            }
            first_where_is_none(after.lists, p);
        },
    }
}

/// A deleted list is there no more, and every other list is as it was.
pub proof fn deleted_list_is_gone(data: DataModel, list_id: u64, other: u64)
    requires
        data.list(list_id) is Some,
        other != list_id,
    ensures
        data.without_list(list_id) matches Some(after) && after.list(list_id) is None && after.list(
            other,
        ) == data.list(other),
{
    let keep = lacks_list_id(list_id);
    let kept = data.lists.filter(keep);
    assert forall|k: int| 0 <= k < kept.len() implies !has_list_id(list_id)(#[trigger] kept[k]) by {
        filter_has(data.lists, keep, kept[k]);
        assert(kept.contains(kept[k]));
    }
    first_where_is_none(kept, has_list_id(list_id));
    match first_where(data.lists, has_list_id(other)) {
        Some(n) => {
            first_where_bounds_lists(data.lists, other);
            first_list_of_filtered(data.lists, other, keep);
        },
        None => {
            assert forall|k: int| 0 <= k < kept.len() implies !has_list_id(other)(
                #[trigger] kept[k],
            ) by {
                filter_has(data.lists, keep, kept[k]);
                assert(kept.contains(kept[k]));
                let n = choose|n: int| 0 <= n < data.lists.len() && data.lists[n] == kept[k];
                if has_list_id(other)(data.lists[n]) {
                    first_where_exists(data.lists, has_list_id(other), n);
                }
            }
            first_where_is_none(kept, has_list_id(other));
        },
    }
}

proof fn first_list_of_filtered(s: Seq<ListModel>, id: u64, keep: spec_fn(ListModel) -> bool)
    requires
        first_where(s, has_list_id(id)) matches Some(j) && keep(s[j]),
    ensures
        first_where(s.filter(keep), has_list_id(id)) matches Some(k) && s.filter(keep)[k]
            == s[first_where(s, has_list_id(id)).unwrap()],
    decreases s.len(),
{
    let p = has_list_id(id);
    let j = choose|j: int| is_first_where(s, p, j);
    first_where_is(s, p, j);
    reveal(Seq::filter);
    let rest = s.drop_last();
    if j == s.len() - 1 {
        let kept = rest.filter(keep);
        assert forall|k: int| 0 <= k < kept.len() implies !p(#[trigger] kept[k]) by {
            filter_has(rest, keep, kept[k]);
            assert(kept.contains(kept[k]));
            let m = choose|m: int| 0 <= m < rest.len() && rest[m] == kept[k];
            assert(!p(s[m]));
        }
        let all = s.filter(keep);
        assert(all == kept.push(s.last()));
        assert forall|k: int| 0 <= k < kept.len() implies !p(#[trigger] all[k]) by {
            assert(!p(kept[k]));
        }
        assert(is_first_where(all, p, kept.len() as int));
        first_where_is(all, p, kept.len() as int);
    } else {
        assert forall|k: int| 0 <= k < j implies !p(#[trigger] rest[k]) by {
            assert(!p(s[k]));
        }
        assert(is_first_where(rest, p, j));
        first_where_is(rest, p, j);
        first_list_of_filtered(rest, id, keep);
        let kept = rest.filter(keep);
        let k = choose|k: int| is_first_where(kept, p, k);
        first_where_is(kept, p, k);
        let all = s.filter(keep);
        assert forall|m: int| 0 <= m < k implies !p(#[trigger] all[m]) by {
            assert(all[m] == kept[m]);
            assert(!p(kept[m]));
        }
        assert(all[k] == kept[k]);
        assert(is_first_where(all, p, k));
        first_where_is(all, p, k);
    }
}

/// The lists have numbers of their own, below that of the next, and none is zero.
pub open spec fn are_lists_numbered(data: DataModel) -> bool {
    &&& forall|i: int|
        0 <= i < data.lists.len() ==> 0 < (#[trigger] data.lists[i]).id < data.next_list_id
    &&& forall|i: int, j: int|
        0 <= i < j < data.lists.len() ==> (#[trigger] data.lists[i]).id != (
        #[trigger] data.lists[j]).id
}

/// The tasks of a list have numbers of their own, below that of the next, and none is zero.
pub open spec fn have_own_numbers(tasks: Seq<TaskModel>, next: u64) -> bool {
    &&& forall|k: int| 0 <= k < tasks.len() ==> 0 < (#[trigger] tasks[k]).id < next
    &&& forall|j: int, k: int|
        0 <= j < k < tasks.len() ==> (#[trigger] tasks[j]).id != (#[trigger] tasks[k]).id
}

/// The tasks of each list have numbers of their own, below that of the next, and none is zero.
pub open spec fn are_tasks_numbered(data: DataModel) -> bool {
    forall|i: int|
        0 <= i < data.lists.len() ==> have_own_numbers(
            (#[trigger] data.lists[i]).tasks,
            data.next_task_id,
        )
}

/// The numbers of the lists and tasks are in order: no two lists have the same, nor two tasks of a
/// list, so that a key names one task.
pub open spec fn is_numbered(data: DataModel) -> bool {
    &&& are_lists_numbered(data)
    &&& are_tasks_numbered(data)
    &&& data.next_list_id > 0
    &&& data.next_task_id > 0
}

proof fn filtered_tasks_keep_numbers(
    tasks: Seq<TaskModel>,
    keep: spec_fn(TaskModel) -> bool,
    next: u64,
)
    requires
        have_own_numbers(tasks, next),
    ensures
        have_own_numbers(tasks.filter(keep), next),
    decreases tasks.len(),
{
    reveal(Seq::filter);
    if tasks.len() > 0 {
        let rest = tasks.drop_last();
        let last = tasks.last();
        assert forall|k: int| 0 <= k < rest.len() implies 0 < (#[trigger] rest[k]).id < next by {
            assert(0 < tasks[k].id < next);
        }
        assert forall|j: int, k: int| 0 <= j < k < rest.len() implies (#[trigger] rest[j]).id != (
        #[trigger] rest[k]).id by {
            assert(tasks[j].id != tasks[k].id);
        }
        filtered_tasks_keep_numbers(rest, keep, next);
        let kept = rest.filter(keep);
        if keep(last) {
            assert forall|k: int| 0 <= k < kept.len() implies (#[trigger] kept[k]).id
                != last.id by {
                filter_has(rest, keep, kept[k]);
                assert(kept.contains(kept[k]));
                let n = choose|n: int| 0 <= n < rest.len() && rest[n] == kept[k];
                assert(tasks[n].id != tasks[tasks.len() - 1].id);
            }
            assert(0 < tasks[tasks.len() - 1].id < next);
            pushed_task_keeps_numbers(kept, last, next);
        }
    }
}

proof fn pushed_task_keeps_numbers(tasks: Seq<TaskModel>, task: TaskModel, next: u64)
    requires
        have_own_numbers(tasks, next),
        0 < task.id < next,
        forall|k: int| 0 <= k < tasks.len() ==> (#[trigger] tasks[k]).id != task.id,
    ensures
        have_own_numbers(tasks.push(task), next),
{
    let more = tasks.push(task);
    assert forall|k: int| 0 <= k < more.len() implies 0 < (#[trigger] more[k]).id < next by {
        if k < tasks.len() {
            assert(0 < tasks[k].id < next);
        }
    }
    assert forall|j: int, k: int| 0 <= j < k < more.len() implies (#[trigger] more[j]).id != (
    #[trigger] more[k]).id by {
        if k < tasks.len() {
            assert(tasks[j].id != tasks[k].id);
        } else {
            assert(tasks[j].id != task.id);
        }
    }
}

proof fn higher_numbers_are_own(tasks: Seq<TaskModel>, next: u64, higher: u64)
    requires
        have_own_numbers(tasks, next),
        next <= higher,
    ensures
        have_own_numbers(tasks, higher),
{
    assert forall|k: int| 0 <= k < tasks.len() implies 0 < (#[trigger] tasks[k]).id < higher by {
        assert(0 < tasks[k].id < next);
    }
}

/// There is room above the numbers of numbered data.
proof fn higher_counter_keeps_numbers(data: DataModel, higher: u64)
    requires
        is_numbered(data),
        data.next_task_id <= higher,
    ensures
        is_numbered(DataModel { next_task_id: higher, ..data }),
{
    let grown = DataModel { next_task_id: higher, ..data };
    assert forall|k: int| 0 <= k < grown.lists.len() implies have_own_numbers(
        (#[trigger] grown.lists[k]).tasks,
        higher,
    ) by {
        assert(have_own_numbers(data.lists[k].tasks, data.next_task_id));
        higher_numbers_are_own(data.lists[k].tasks, data.next_task_id, higher);
    }
}

/// Where the numbers are in order, a key names one task: the position of a task is found by the
/// numbers of its list and its own.
pub proof fn key_names_one_task(data: DataModel, i: int, j: int)
    requires
        is_numbered(data),
        0 <= i < data.lists.len(),
        0 <= j < data.lists[i].tasks.len(),
    ensures
        data.position(
            TaskKey { list_id: data.lists[i].id, task_id: data.lists[i].tasks[j].id },
        ) == Some((i, j)),
{
    let list_id = data.lists[i].id;
    let tasks = data.lists[i].tasks;
    let task_id = tasks[j].id;
    assert forall|k: int| 0 <= k < i implies !has_list_id(list_id)(#[trigger] data.lists[k]) by {
        assert(data.lists[k].id != data.lists[i].id);
    }
    assert(is_first_where(data.lists, has_list_id(list_id), i));
    first_where_is(data.lists, has_list_id(list_id), i);
    assert(have_own_numbers(tasks, data.next_task_id));
    assert forall|k: int| 0 <= k < j implies !has_task_id(task_id)(#[trigger] tasks[k]) by {
        assert(tasks[k].id != tasks[j].id);
    }
    assert(is_first_where(tasks, has_task_id(task_id), j));
    first_where_is(tasks, has_task_id(task_id), j);
}

proof fn filter_out_one(tasks: Seq<TaskModel>, j: int, next: u64)
    requires
        have_own_numbers(tasks, next),
        0 <= j < tasks.len(),
    ensures
        tasks.filter(lacks_task_id(tasks[j].id)) == tasks.remove(j),
    decreases tasks.len(),
{
    let keep = lacks_task_id(tasks[j].id);
    reveal(Seq::filter);
    let rest = tasks.drop_last();
    if j == tasks.len() - 1 {
        filter_all(rest, keep);
        assert(tasks.remove(j) == rest);
    } else {
        assert forall|k: int| 0 <= k < rest.len() implies 0 < (#[trigger] rest[k]).id < next by {
            assert(0 < tasks[k].id < next);
        }
        assert forall|a: int, b: int| 0 <= a < b < rest.len() implies (#[trigger] rest[a]).id != (
        #[trigger] rest[b]).id by {
            assert(tasks[a].id != tasks[b].id);
        }
        filter_out_one(rest, j, next);
        assert(tasks[j].id != tasks[tasks.len() - 1].id);
        assert(tasks.remove(j) == rest.remove(j).push(tasks.last()));
    }
}

/// Where the numbers are in order, an edit by the key of a task changes that task and nothing else,
/// and deleting by its key takes that task out and nothing else.
pub proof fn edits_reach_one_task(
    data: DataModel,
    i: int,
    j: int,
    edit: spec_fn(TaskModel) -> TaskModel,
)
    requires
        is_numbered(data),
        0 <= i < data.lists.len(),
        0 <= j < data.lists[i].tasks.len(),
    ensures
        ({
            let key = TaskKey { list_id: data.lists[i].id, task_id: data.lists[i].tasks[j].id };
            &&& data.edited_task(key, edit) == Some(
                data.with_task(i, j, edit(data.lists[i].tasks[j])),
            )
            &&& data.without_task(key) == Some(
                data.with_tasks(i, data.lists[i].tasks.remove(j)),
            )
        }),
{
    key_names_one_task(data, i, j);
    assert(have_own_numbers(data.lists[i].tasks, data.next_task_id));
    filter_out_one(data.lists[i].tasks, j, data.next_task_id);
}

/// Pruning keeps the numbers in order.
pub proof fn pruning_keeps_numbers(data: DataModel, today: int)
    requires
        is_numbered(data),
    ensures
        is_numbered(data.pruned(today)),
{
    let after = data.pruned(today);
    assert forall|i: int| 0 <= i < after.lists.len() implies have_own_numbers(
        (#[trigger] after.lists[i]).tasks,
        after.next_task_id,
    ) by {
        assert(have_own_numbers(data.lists[i].tasks, data.next_task_id));
        filtered_tasks_keep_numbers(data.lists[i].tasks, not_overdue(today), data.next_task_id);
    }
    assert forall|i: int| 0 <= i < after.lists.len() implies 0 < (#[trigger] after.lists[i]).id
        < after.next_list_id by {
        assert(0 < data.lists[i].id < data.next_list_id);
    }
    assert forall|i: int, j: int| 0 <= i < j < after.lists.len() implies (
    #[trigger] after.lists[i]).id != (#[trigger] after.lists[j]).id by {
        assert(data.lists[i].id != data.lists[j].id);
    }
}

/// A list with other tasks keeps the numbers in order, where those of the tasks are.
proof fn other_tasks_keep_numbers(data: DataModel, i: int, tasks: Seq<TaskModel>)
    requires
        is_numbered(data),
        0 <= i < data.lists.len(),
        have_own_numbers(tasks, data.next_task_id),
    ensures
        is_numbered(data.with_tasks(i, tasks)),
{
    let after = data.with_tasks(i, tasks);
    assert forall|k: int| 0 <= k < after.lists.len() implies 0 < (#[trigger] after.lists[k]).id
        < after.next_list_id by {
        assert(0 < data.lists[k].id < data.next_list_id);
    }
    assert forall|k: int, j: int| 0 <= k < j < after.lists.len() implies (
    #[trigger] after.lists[k]).id != (#[trigger] after.lists[j]).id by {
        assert(data.lists[k].id != data.lists[j].id);
    }
    assert forall|k: int| 0 <= k < after.lists.len() implies have_own_numbers(
        (#[trigger] after.lists[k]).tasks,
        after.next_task_id,
    ) by {
        assert(have_own_numbers(data.lists[k].tasks, data.next_task_id));
    }
}

/// An edit of a task keeps the numbers in order.
pub proof fn editing_a_task_keeps_numbers(
    data: DataModel,
    key: TaskKey,
    edit: spec_fn(TaskModel) -> TaskModel,
)
    requires
        is_numbered(data),
        keeps_number(edit),
    ensures
        data.edited_task(key, edit) matches Some(after) ==> is_numbered(after),
{
    if let Some((i, j)) = data.position(key) {
        first_where_bounds_lists(data.lists, key.list_id);
        first_where_bounds_tasks(data.lists[i].tasks, key.task_id);
        let before = data.lists[i].tasks;
        let tasks = before.update(j, edit(before[j]));
        assert(have_own_numbers(before, data.next_task_id));
        assert forall|k: int| 0 <= k < tasks.len() implies 0 < (#[trigger] tasks[k]).id
            < data.next_task_id by {
            assert(0 < before[k].id < data.next_task_id);
        }
        assert forall|a: int, b: int| 0 <= a < b < tasks.len() implies (#[trigger] tasks[a]).id != (
        #[trigger] tasks[b]).id by {
            assert(before[a].id != before[b].id);
        }
        other_tasks_keep_numbers(data, i, tasks);
    }
}

/// An edit that keeps the number of a list, and its tasks.
pub open spec fn keeps_list(edit: spec_fn(ListModel) -> ListModel) -> bool {
    forall|list: ListModel|
        (#[trigger] edit(list)).id == list.id && edit(list).tasks == list.tasks
}

/// An edit of a list keeps the numbers in order.
pub proof fn editing_a_list_keeps_numbers(
    data: DataModel,
    list_id: u64,
    edit: spec_fn(ListModel) -> ListModel,
)
    requires
        is_numbered(data),
        keeps_list(edit),
    ensures
        data.edited_list(list_id, edit) matches Some(after) ==> is_numbered(after),
{
    if let Some(i) = data.list_index(list_id) {
        first_where_bounds_lists(data.lists, list_id);
        let after = data.edited_list(list_id, edit).unwrap();
        assert forall|k: int| 0 <= k < after.lists.len() implies 0 < (#[trigger] after.lists[k]).id
            < after.next_list_id by {
            assert(0 < data.lists[k].id < data.next_list_id);
        }
        assert forall|k: int, j: int| 0 <= k < j < after.lists.len() implies (
        #[trigger] after.lists[k]).id != (#[trigger] after.lists[j]).id by {
            assert(data.lists[k].id != data.lists[j].id);
        }
        assert forall|k: int| 0 <= k < after.lists.len() implies have_own_numbers(
            (#[trigger] after.lists[k]).tasks,
            after.next_task_id,
        ) by {
            assert(have_own_numbers(data.lists[k].tasks, data.next_task_id));
        }
    }
}

/// Deleting a task or a list keeps the numbers in order.
pub proof fn deleting_keeps_numbers(data: DataModel, key: TaskKey, list_id: u64)
    requires
        is_numbered(data),
    ensures
        data.without_task(key) matches Some(after) ==> is_numbered(after),
        data.without_list(list_id) matches Some(after) ==> is_numbered(after),
{
    if let Some((i, j)) = data.position(key) {
        first_where_bounds_lists(data.lists, key.list_id);
        assert(have_own_numbers(data.lists[i].tasks, data.next_task_id));
        filtered_tasks_keep_numbers(
            data.lists[i].tasks,
            lacks_task_id(key.task_id),
            data.next_task_id,
        );
        other_tasks_keep_numbers(
            data,
            i,
            data.lists[i].tasks.filter(lacks_task_id(key.task_id)),
        );
    }
    if let Some(i) = data.list_index(list_id) {
        let after = data.without_list(list_id).unwrap();
        filtered_lists_are_numbered(data, lacks_list_id(list_id));
    }
}

proof fn filtered_lists_are_numbered(data: DataModel, keep: spec_fn(ListModel) -> bool)
    requires
        is_numbered(data),
    ensures
        is_numbered(DataModel { lists: data.lists.filter(keep), ..data }),
    decreases data.lists.len(),
{
    reveal(Seq::filter);
    let lists = data.lists;
    let after = DataModel { lists: lists.filter(keep), ..data };
    if lists.len() > 0 {
        let rest = DataModel { lists: lists.drop_last(), ..data };
        assert forall|i: int| 0 <= i < rest.lists.len() implies 0 < (#[trigger] rest.lists[i]).id
            < rest.next_list_id by {
            assert(0 < data.lists[i].id < data.next_list_id);
        }
        assert forall|i: int, j: int| 0 <= i < j < rest.lists.len() implies (
        #[trigger] rest.lists[i]).id != (#[trigger] rest.lists[j]).id by {
            assert(data.lists[i].id != data.lists[j].id);
        }
        assert forall|i: int| 0 <= i < rest.lists.len() implies have_own_numbers(
            (#[trigger] rest.lists[i]).tasks,
            rest.next_task_id,
        ) by {
            assert(have_own_numbers(data.lists[i].tasks, data.next_task_id));
        }
        filtered_lists_are_numbered(rest, keep);
        let kept = rest.lists.filter(keep);
        let last = lists.last();
        assert(0 < lists[lists.len() - 1].id < data.next_list_id);
        assert(have_own_numbers(lists[lists.len() - 1].tasks, data.next_task_id));
        let small = DataModel { lists: kept, ..data };
        assert(is_numbered(small));
        if keep(last) {
            assert(after.lists == kept.push(last));
            assert forall|i: int| 0 <= i < after.lists.len() implies 0 < (
            #[trigger] after.lists[i]).id < after.next_list_id by {
                if i < kept.len() {
                    assert(after.lists[i] == small.lists[i]);
                }
            }
            assert forall|i: int, j: int| 0 <= i < j < after.lists.len() implies (
            #[trigger] after.lists[i]).id != (#[trigger] after.lists[j]).id by {
                assert(after.lists[i] == small.lists[i]);
                if j < kept.len() {
                    assert(after.lists[j] == small.lists[j]);
                } else {
                    filter_has(rest.lists, keep, kept[i]);
                    assert(kept.contains(kept[i]));
                    let n = choose|n: int| 0 <= n < rest.lists.len() && rest.lists[n] == kept[i];
                    assert(lists[n].id != lists[lists.len() - 1].id);
                }
            }
            assert forall|i: int| 0 <= i < after.lists.len() implies have_own_numbers(
                (#[trigger] after.lists[i]).tasks,
                after.next_task_id,
            ) by {
                if i < kept.len() {
                    assert(after.lists[i] == small.lists[i]);
                }
            }
        }
    }
}

/// A task that is moved to a list that holds its number can get another.
pub open spec fn move_fits(data: DataModel, key: TaskKey, target_list_id: u64) -> bool {
    data.list(target_list_id) matches Some(list) ==> first_where(
        list.tasks,
        has_task_id(key.task_id),
    ) is None || data.next_task_id < u64::MAX
}

proof fn taken_task_keeps_numbers(tasks: Seq<TaskModel>, j: int, next: u64)
    requires
        have_own_numbers(tasks, next),
        0 <= j < tasks.len(),
    ensures
        have_own_numbers(tasks.remove(j), next),
{
    let left = tasks.remove(j);
    let place = |k: int|
        if k < j {
            k
        } else {
            k + 1
        };
    assert forall|k: int| 0 <= k < left.len() implies 0 < (#[trigger] left[k]).id < next by {
        assert(0 < tasks[place(k)].id < next);
    }
    assert forall|a: int, b: int| 0 <= a < b < left.len() implies (#[trigger] left[a]).id != (
    #[trigger] left[b]).id by {
        assert(tasks[place(a)].id != tasks[place(b)].id);
    }
}

/// Moving a task keeps the numbers in order: in its new list, too, no two tasks have the same.
pub proof fn moving_keeps_numbers(data: DataModel, key: TaskKey, target_list_id: u64)
    requires
        is_numbered(data),
        move_fits(data, key, target_list_id),
    ensures
        data.with_task_moved(key, target_list_id) matches Some(after) ==> is_numbered(after)
            && data.next_task_id <= after.next_task_id <= data.next_task_id + 1,
{
    if let Some(after) = data.with_task_moved(key, target_list_id) {
        let (i, j) = data.position(key).unwrap();
        let t = data.list_index(target_list_id).unwrap();
        first_where_bounds_lists(data.lists, key.list_id);
        first_where_bounds_lists(data.lists, target_list_id);
        first_where_bounds_tasks(data.lists[i].tasks, key.task_id);
        let before = data.lists[i].tasks;
        let left = before.remove(j);
        assert(have_own_numbers(before, data.next_task_id));
        assert(0 < before[j].id < data.next_task_id);
        taken_task_keeps_numbers(before, j, data.next_task_id);
        other_tasks_keep_numbers(data, i, left);
        let taken = data.with_tasks(i, left);
        let there = taken.lists[t].tasks;
        assert(there == data.lists[t].tasks);
        assert(have_own_numbers(there, taken.next_task_id));
        if data.needs_number(key.task_id, t) {
            let next = (data.next_task_id + 1) as u64;
            let moved = TaskModel { id: data.next_task_id, ..before[j] };
            higher_counter_keeps_numbers(taken, next);
            let grown = DataModel { next_task_id: next, ..taken };
            assert(have_own_numbers(grown.lists[t].tasks, next));
            assert forall|k: int| 0 <= k < there.len() implies (#[trigger] there[k]).id
                != moved.id by {
                assert(0 < there[k].id < data.next_task_id);
            }
            pushed_task_keeps_numbers(there, moved, next);
            other_tasks_keep_numbers(grown, t, there.push(moved));
            assert(grown.with_tasks(t, there.push(moved)) == after);
        } else {
            assert forall|k: int| 0 <= k < there.len() implies (#[trigger] there[k]).id
                != before[j].id by {
                if has_task_id(key.task_id)(there[k]) {
                    first_where_exists(there, has_task_id(key.task_id), k);
                }
            }
            pushed_task_keeps_numbers(there, before[j], data.next_task_id);
            other_tasks_keep_numbers(taken, t, there.push(before[j]));
        }
    }
}

/// Creating a task or a list keeps the numbers in order.
pub proof fn creating_keeps_numbers(data: DataModel, list_id: u64, today: int)
    requires
        is_numbered(data),
    ensures
        data.next_task_id < u64::MAX ==> (data.with_new_task(list_id, today) matches Some(after)
            ==> is_numbered(after)),
        data.next_list_id < u64::MAX ==> is_numbered(data.with_new_list()),
{
    if data.next_task_id < u64::MAX {
        if let Some(after) = data.with_new_task(list_id, today) {
            let i = data.list_index(list_id).unwrap();
            first_where_bounds_lists(data.lists, list_id);
            let next = (data.next_task_id + 1) as u64;
            let grown = DataModel { next_task_id: next, ..data };
            higher_counter_keeps_numbers(data, next);
            let before = data.lists[i].tasks;
            let task = new_task(data.next_task_id, today);
            assert(have_own_numbers(before, data.next_task_id));
            assert(have_own_numbers(grown.lists[i].tasks, next));
            assert forall|k: int| 0 <= k < before.len() implies (#[trigger] before[k]).id
                != task.id by {
                assert(0 < before[k].id < data.next_task_id);
            }
            pushed_task_keeps_numbers(before, task, next);
            let more = before.push(task);
            other_tasks_keep_numbers(grown, i, more);
            assert(grown.with_tasks(i, more) == after);
        }
    }
    if data.next_list_id < u64::MAX {
        let after = data.with_new_list();
        assert forall|k: int| 0 <= k < after.lists.len() implies 0 < (#[trigger] after.lists[k]).id
            < after.next_list_id by {
            if k < data.lists.len() {
                assert(0 < data.lists[k].id < data.next_list_id);
            }
        }
        assert forall|k: int, j: int| 0 <= k < j < after.lists.len() implies (
        #[trigger] after.lists[k]).id != (#[trigger] after.lists[j]).id by {
            assert(0 < data.lists[k].id < data.next_list_id);
            if j < data.lists.len() {
                assert(data.lists[k].id != data.lists[j].id);
            }
        }
        assert forall|k: int| 0 <= k < after.lists.len() implies have_own_numbers(
            (#[trigger] after.lists[k]).tasks,
            after.next_task_id,
        ) by {
            if k < data.lists.len() {
                assert(have_own_numbers(data.lists[k].tasks, data.next_task_id));
            }
        }
    }
}

/// An edit that keeps the numbers in order.
pub open spec fn keeps_numbers(step: spec_fn(DataModel, TaskKey) -> Option<DataModel>) -> bool {
    forall|data: DataModel, key: TaskKey|
        is_numbered(data) ==> (#[trigger] step(data, key) matches Some(after) ==> is_numbered(
            after,
        ))
}

proof fn editing_many_keeps_numbers(
    data: DataModel,
    keys: Seq<TaskKey>,
    step: spec_fn(DataModel, TaskKey) -> Option<DataModel>,
)
    requires
        is_numbered(data),
        keeps_numbers(step),
    ensures
        is_numbered(data.for_keys(keys, step)),
    decreases keys.len(),
{
    if keys.len() > 0 {
        editing_many_keeps_numbers(data, keys.drop_last(), step);
    }
}

proof fn moving_many_keeps_numbers(data: DataModel, keys: Seq<TaskKey>, target_list_id: u64)
    requires
        is_numbered(data),
        data.next_task_id + keys.len() <= u64::MAX,
    ensures
        is_numbered(data.for_keys(keys, move_step(target_list_id))),
        data.for_keys(keys, move_step(target_list_id)).next_task_id <= data.next_task_id
            + keys.len(),
    decreases keys.len(),
{
    if keys.len() > 0 {
        moving_many_keeps_numbers(data, keys.drop_last(), target_list_id);
        moving_keeps_numbers(
            data.for_keys(keys.drop_last(), move_step(target_list_id)),
            keys.last(),
            target_list_id,
        );
    }
}

/// Editing or deleting several tasks keeps the numbers in order, and so does moving them, where
/// there are as many numbers left.
pub proof fn editing_several_tasks_keeps_numbers(
    data: DataModel,
    keys: Seq<TaskKey>,
    due_date: int,
    target_list_id: u64,
)
    requires
        is_numbered(data),
    ensures
        is_numbered(data.for_keys(keys, due_date_step(due_date))),
        data.next_task_id + keys.len() <= u64::MAX ==> is_numbered(
            data.for_keys(keys, move_step(target_list_id)),
        ),
        is_numbered(data.for_keys(keys, delete_step())),
{
    assert(keeps_numbers(due_date_step(due_date))) by {
        assert forall|data: DataModel, key: TaskKey| is_numbered(data) implies (
        #[trigger] due_date_step(due_date)(data, key) matches Some(after) ==> is_numbered(
            after,
        )) by {
            editing_a_task_keeps_numbers(data, key, set_due_date(due_date));
        }
    }
    assert(keeps_numbers(delete_step())) by {
        assert forall|data: DataModel, key: TaskKey| is_numbered(data) implies (
        #[trigger] delete_step()(data, key) matches Some(after) ==> is_numbered(after)) by {
            deleting_keeps_numbers(data, key, 0);
        }
    }
    editing_many_keeps_numbers(data, keys, due_date_step(due_date));
    if data.next_task_id + keys.len() <= u64::MAX {
        moving_many_keeps_numbers(data, keys, target_list_id);
    }
    editing_many_keeps_numbers(data, keys, delete_step());
}

/// A new task is read by its key, which no task had before; nothing else changes.
pub proof fn new_task_is_read_back(data: DataModel, list_id: u64, today: int, other: TaskKey)
    requires
        is_numbered(data),
        data.list(list_id) is Some,
        data.next_task_id < u64::MAX,
        other != (TaskKey { list_id, task_id: data.next_task_id }),
    ensures
        ({
            let key = TaskKey { list_id, task_id: data.next_task_id };
            &&& data.task(key) is None
            &&& data.with_new_task(list_id, today) matches Some(after) && after.task(key) == Some(
                new_task(data.next_task_id, today),
            ) && after.task(other) == data.task(other)
        }),
{
    let key = TaskKey { list_id, task_id: data.next_task_id };
    let i = data.list_index(list_id).unwrap();
    first_where_bounds_lists(data.lists, list_id);
    let after = data.with_new_task(list_id, today).unwrap();
    lists_stay(data, after, list_id);
    lists_stay(data, after, other.list_id);
    let before = data.lists[i].tasks;
    let more = before.push(new_task(data.next_task_id, today));
    let p = has_task_id(data.next_task_id);
    assert(have_own_numbers(before, data.next_task_id));
    assert forall|k: int| 0 <= k < before.len() implies !p(#[trigger] before[k]) by {
        assert(0 < before[k].id < data.next_task_id);
    }
    first_where_is_none(before, p);
    assert forall|k: int| 0 <= k < before.len() implies !p(#[trigger] more[k]) by {
        assert(!p(before[k]));
    }
    assert(is_first_where(more, p, before.len() as int));
    first_where_is(more, p, before.len() as int);
    if let Some(m) = data.list_index(other.list_id) {
        if m == i {
            first_where_bounds_lists(data.lists, other.list_id);
            pushed_task_hides_nothing(before, new_task(data.next_task_id, today), other.task_id);
        }
    }
}

/// A task at the end hides no other.
proof fn pushed_task_hides_nothing(tasks: Seq<TaskModel>, task: TaskModel, task_id: u64)
    requires
        task.id != task_id || first_where(tasks, has_task_id(task_id)) is Some,
    ensures
        first_where(tasks.push(task), has_task_id(task_id)) == first_where(
            tasks,
            has_task_id(task_id),
        ),
        first_where(tasks, has_task_id(task_id)) matches Some(j) ==> 0 <= j < tasks.len()
            && tasks.push(task)[j] == tasks[j],
{
    let p = has_task_id(task_id);
    let more = tasks.push(task);
    match first_where(tasks, p) {
        Some(j) => {
            assert(is_first_where(tasks, p, j));
            assert forall|k: int| 0 <= k < j implies !p(#[trigger] more[k]) by {
                assert(!p(tasks[k]));
            }
            assert(is_first_where(more, p, j));
            first_where_is(more, p, j);
        },
        None => {
            assert forall|k: int| 0 <= k < more.len() implies !p(#[trigger] more[k]) by {
                if k < tasks.len() && p(tasks[k]) {
                    first_where_exists(tasks, p, k);
                }
            }
            first_where_is_none(more, p);
        },
    }
}

/// A new list is read by its number, which no list had before; the other lists are as they were.
pub proof fn new_list_is_read_back(data: DataModel, other: u64)
    requires
        is_numbered(data),
        data.next_list_id < u64::MAX,
        other != data.next_list_id,
    ensures
        data.list(data.next_list_id) is None,
        data.with_new_list().list(data.next_list_id) == Some(new_list(data.next_list_id)),
        data.with_new_list().list(other) == data.list(other),
{
    let id = data.next_list_id;
    let p = has_list_id(id);
    let after = data.with_new_list();
    assert forall|k: int| 0 <= k < data.lists.len() implies !p(#[trigger] data.lists[k]) by {
        assert(0 < data.lists[k].id < data.next_list_id);
    }
    first_where_is_none(data.lists, p);
    assert forall|k: int| 0 <= k < data.lists.len() implies !p(#[trigger] after.lists[k]) by {
        assert(!p(data.lists[k]));
    }
    assert(is_first_where(after.lists, p, data.lists.len() as int));
    first_where_is(after.lists, p, data.lists.len() as int);
    let q = has_list_id(other);
    match first_where(data.lists, q) {
        Some(j) => {
            assert(is_first_where(data.lists, q, j));
            assert forall|k: int| 0 <= k < j implies !q(#[trigger] after.lists[k]) by {
                assert(!q(data.lists[k]));
            }
            assert(is_first_where(after.lists, q, j));
            first_where_is(after.lists, q, j);
        },
        None => {
            assert forall|k: int| 0 <= k < after.lists.len() implies !q(
                #[trigger] after.lists[k],
            ) by {
                if k < data.lists.len() && q(data.lists[k]) {
                    first_where_exists(data.lists, q, k);
                }
            }
            first_where_is_none(after.lists, q);
        },
    }
}

/// A task that is moved is taken out of its list and stands at the end of the other, as it was but
/// for a number that the other list holds already; the rest of both lists, and all other lists, are
/// as they were.
pub proof fn moved_task_changes_its_list(data: DataModel, key: TaskKey, target_list_id: u64)
    requires
        data.task(key) is Some,
        data.list(target_list_id) is Some,
        key.list_id != target_list_id,
    ensures
        data.with_task_moved(key, target_list_id) matches Some(after) && {
            let (i, j) = data.position(key).unwrap();
            let t = data.list_index(target_list_id).unwrap();
            &&& i != t
            &&& after.list(key.list_id) == Some(
                ListModel { tasks: data.lists[i].tasks.remove(j), ..data.lists[i] },
            )
            &&& after.list(target_list_id) == Some(
                ListModel {
                    tasks: data.lists[t].tasks.push(
                        if data.needs_number(key.task_id, t) {
                            TaskModel { id: data.next_task_id, ..data.task(key).unwrap() }
                        } else {
                            data.task(key).unwrap()
                        },
                    ),
                    ..data.lists[t]
                },
            )
            &&& after.lists.len() == data.lists.len()
            &&& forall|k: int|
                0 <= k < data.lists.len() && k != i && k != t ==> #[trigger] after.lists[k]
                    == data.lists[k]
        },
{
    let (i, j) = data.position(key).unwrap();
    let t = data.list_index(target_list_id).unwrap();
    first_where_bounds_lists(data.lists, key.list_id);
    first_where_bounds_lists(data.lists, target_list_id);
    let after = data.with_task_moved(key, target_list_id).unwrap();
    lists_stay(data, after, key.list_id);
    lists_stay(data, after, target_list_id);
}

/// Every list could be loaded: its name is not blank, and its color is one.
pub open spec fn has_sound_lists(data: DataModel) -> bool {
    forall|i: int| 0 <= i < data.lists.len() ==> list_fault(#[trigger] data.lists[i]) is None
}

/// A list that is renamed or gets another color, where these are accepted, could be loaded.
pub proof fn edited_lists_are_sound(list: ListModel, name: Seq<char>, color: Seq<char>, priority: u8)
    requires
        list_fault(list) is None,
    ensures
        trimmed(name).len() > 0 ==> list_fault(set_name(trimmed(name))(list)) is None,
        parsed_color(color) is Some ==> list_fault(set_color(normalized_color(color))(list))
            is None,
        list_fault(set_priority(priority)(list)) is None,
{
    trimmed_is_trimmed(name);
    if trimmed(name).len() > 0 {
        assert(trimmed(trimmed(name)) == trimmed(name));
    }
    normalized_color_is_stable(color);
}

/// A new list could be loaded.
pub proof fn new_list_is_sound(id: u64)
    ensures
        list_fault(new_list(id)) is None,
{
    reveal_strlit("New List");
    reveal_strlit("#4DA3FF");
    let name = "New List"@;
    assert(trimmed(name) == name);
    let color = "#4DA3FF"@;
    assert(trimmed(color) == color);
    assert(normalized_color(color) == color);
    assert(parsed_color(color) is Some);
}

/// Whatever is done to the data, every list could be loaded: lists are only renamed to names that
/// are not blank and colored in colors, and new lists and lists with other tasks are sound too.
pub proof fn edits_keep_lists_sound(
    data: DataModel,
    key: TaskKey,
    edit: spec_fn(TaskModel) -> TaskModel,
    list_id: u64,
    name: Seq<char>,
    color: Seq<char>,
    priority: u8,
    today: int,
)
    requires
        has_sound_lists(data),
    ensures
        has_sound_lists(data.pruned(today)),
        data.edited_task(key, edit) matches Some(after) ==> has_sound_lists(after),
        data.without_task(key) matches Some(after) ==> has_sound_lists(after),
        data.without_list(list_id) matches Some(after) ==> has_sound_lists(after),
        data.with_task_moved(key, list_id) matches Some(after) ==> has_sound_lists(after),
        data.with_new_task(list_id, today) matches Some(after) ==> has_sound_lists(after),
        has_sound_lists(data.with_new_list()),
        trimmed(name).len() > 0 ==> (data.edited_list(list_id, set_name(trimmed(name))) matches Some(
            after,
        ) ==> has_sound_lists(after)),
        parsed_color(color) is Some ==> (data.edited_list(
            list_id,
            set_color(normalized_color(color)),
        ) matches Some(after) ==> has_sound_lists(after)),
        data.edited_list(list_id, set_priority(priority)) matches Some(after) ==> has_sound_lists(
            after,
        ),
{
    first_where_bounds_lists(data.lists, key.list_id);
    first_where_bounds_lists(data.lists, list_id);
    let pruned = data.pruned(today);
    assert forall|i: int| 0 <= i < pruned.lists.len() implies list_fault(
        #[trigger] pruned.lists[i],
    ) is None by {
        assert(list_fault(data.lists[i]) is None);
    }
    if let Some(after) = data.edited_task(key, edit) {
        same_heads_are_sound(data, after);
    }
    if let Some(after) = data.without_task(key) {
        same_heads_are_sound(data, after);
    }
    if let Some(after) = data.with_task_moved(key, list_id) {
        same_heads_are_sound(data, after);
    }
    if let Some(after) = data.with_new_task(list_id, today) {
        same_heads_are_sound(data, after);
    }
    if let Some(after) = data.without_list(list_id) {
        assert forall|i: int| 0 <= i < after.lists.len() implies list_fault(
            #[trigger] after.lists[i],
        ) is None by {
            filter_has(data.lists, lacks_list_id(list_id), after.lists[i]);
            assert(after.lists.contains(after.lists[i]));
            let n = choose|n: int| 0 <= n < data.lists.len() && data.lists[n] == after.lists[i];
            assert(list_fault(data.lists[n]) is None);
        }
    }
    new_list_is_sound(data.next_list_id);
    let grown = data.with_new_list();
    assert forall|i: int| 0 <= i < grown.lists.len() implies list_fault(#[trigger] grown.lists[i])
        is None by {
        if i < data.lists.len() {
            assert(list_fault(data.lists[i]) is None);
        }
    }
    if let Some(i) = data.list_index(list_id) {
        assert(list_fault(data.lists[i]) is None);
        edited_lists_are_sound(data.lists[i], name, color, priority);
        if trimmed(name).len() > 0 {
            one_sound_list(data, i, set_name(trimmed(name))(data.lists[i]));
        }
        if parsed_color(color) is Some {
            one_sound_list(data, i, set_color(normalized_color(color))(data.lists[i]));
        }
        one_sound_list(data, i, set_priority(priority)(data.lists[i]));
    }
}

proof fn one_sound_list(data: DataModel, i: int, list: ListModel)
    requires
        has_sound_lists(data),
        0 <= i < data.lists.len(),
        list_fault(list) is None,
    ensures
        has_sound_lists(data.with_list(i, list)),
{
    let after = data.with_list(i, list);
    assert forall|k: int| 0 <= k < after.lists.len() implies list_fault(#[trigger] after.lists[k])
        is None by {
        assert(list_fault(data.lists[k]) is None);
    }
}

proof fn same_heads_are_sound(data: DataModel, after: DataModel)
    requires
        has_sound_lists(data),
        after.lists.len() == data.lists.len(),
        forall|k: int|
            0 <= k < data.lists.len() ==> (#[trigger] after.lists[k]).name == data.lists[k].name
                && after.lists[k].color_hex == data.lists[k].color_hex,
    ensures
        has_sound_lists(after),
{
    assert forall|k: int| 0 <= k < after.lists.len() implies list_fault(#[trigger] after.lists[k])
        is None by {
        assert(list_fault(data.lists[k]) is None);
    }
}

} // verus!
