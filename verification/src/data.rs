//! All task lists, and the edits that the user makes to them.

use vstd::prelude::*;

use crate::color::{normalize_hex_color, normalized_color, parse_hex_color, parsed_color};
use crate::date::Date;
use crate::seqs::{
    filter_len, keep_marked, first_where, first_where_is, first_where_is_none, is_first_where,
    views_push,
};
use crate::sorting::views;
use crate::task::{ListModel, Task, TaskKey, TaskList, TaskModel};
use crate::text::{trim, trimmed};

verus! {

/// The numbers that the next list and the next task get.
#[derive(Clone, Copy, Debug)]
pub struct Counters {
    next_list_id: u64,
    next_task_id: u64,
}

impl Counters {
    pub closed spec fn list(&self) -> u64 {
        self.next_list_id
    }

    pub closed spec fn task(&self) -> u64 {
        self.next_task_id
    }

    pub(crate) fn new(next_list_id: u64, next_task_id: u64) -> (res: Counters)
        ensures
            res.list() == next_list_id,
            res.task() == next_task_id,
    {
        Counters { next_list_id, next_task_id }
    }
}

/// All task lists.
#[derive(Debug)]
pub struct AppData {
    pub lists: Vec<TaskList>,
    pub counters: Counters,
}

/// All task lists, as mathematical values, and the numbers that the next list and the next task get.
#[verifier::ext_equal]
pub struct DataModel {
    pub lists: Seq<ListModel>,
    pub next_list_id: u64,
    pub next_task_id: u64,
}

impl View for AppData {
    type V = DataModel;

    open spec fn view(&self) -> DataModel {
        DataModel {
            lists: views(self.lists@),
            next_list_id: self.counters.list(),
            next_task_id: self.counters.task(),
        }
    }
}

pub open spec fn has_list_id(id: u64) -> spec_fn(ListModel) -> bool {
    |list: ListModel| list.id == id
}

pub open spec fn has_task_id(id: u64) -> spec_fn(TaskModel) -> bool {
    |task: TaskModel| task.id == id
}

/// A completed task whose due date lies more than a week back.
pub open spec fn is_overdue(task: TaskModel, today: int) -> bool {
    task.completed && today > task.due_date + 7
}

pub open spec fn not_overdue(today: int) -> spec_fn(TaskModel) -> bool {
    |task: TaskModel| !is_overdue(task, today)
}

/// A list without its completed tasks whose due date lies more than a week back.
pub open spec fn pruned_list(list: ListModel, today: int) -> ListModel {
    ListModel { tasks: list.tasks.filter(not_overdue(today)), ..list }
}

/// All lists without their completed tasks whose due date lies more than a week back.
pub open spec fn pruned_lists(lists: Seq<ListModel>, today: int) -> Seq<ListModel> {
    lists.map_values(|list: ListModel| pruned_list(list, today))
}

/// How many completed tasks have a due date that lies more than a week back.
pub open spec fn overdue_count(lists: Seq<ListModel>, today: int) -> nat
    decreases lists.len(),
{
    if lists.len() == 0 {
        0
    } else {
        overdue_count(lists.drop_last(), today) + (lists.last().tasks.len() - lists.last().tasks.filter(
            not_overdue(today),
        ).len()) as nat
    }
}

/// How many tasks are removed, as far as a `usize` can tell.
pub open spec fn removed_count(lists: Seq<ListModel>, today: int) -> nat {
    if overdue_count(lists, today) <= usize::MAX {
        overdue_count(lists, today)
    } else {
        usize::MAX as nat
    }
}

impl DataModel {
    /// The position of the list with the given number.
    pub open spec fn list_index(self, list_id: u64) -> Option<int> {
        first_where(self.lists, has_list_id(list_id))
    }

    /// The positions of a task: that of its list, and its own there.
    pub open spec fn position(self, key: TaskKey) -> Option<(int, int)> {
        match self.list_index(key.list_id) {
            Some(i) => match first_where(self.lists[i].tasks, has_task_id(key.task_id)) {
                Some(j) => Some((i, j)),
                None => None,
            },
            None => None,
        }
    }

    /// The list with the given number.
    pub open spec fn list(self, list_id: u64) -> Option<ListModel> {
        match self.list_index(list_id) {
            Some(i) => Some(self.lists[i]),
            None => None,
        }
    }

    /// The task with the given key.
    pub open spec fn task(self, key: TaskKey) -> Option<TaskModel> {
        match self.position(key) {
            Some((i, j)) => Some(self.lists[i].tasks[j]),
            None => None,
        }
    }

    /// The same data with another list at a position.
    pub open spec fn with_list(self, i: int, list: ListModel) -> DataModel {
        DataModel { lists: self.lists.update(i, list), ..self }
    }

    /// The same data with other tasks in the list at a position.
    pub open spec fn with_tasks(self, i: int, tasks: Seq<TaskModel>) -> DataModel {
        self.with_list(i, ListModel { tasks, ..self.lists[i] })
    }

    /// The same data with another task at a position.
    pub open spec fn with_task(self, i: int, j: int, task: TaskModel) -> DataModel {
        self.with_tasks(i, self.lists[i].tasks.update(j, task))
    }

    /// The same data without the completed tasks whose due date lies more than a week back.
    pub open spec fn pruned(self, today: int) -> DataModel {
        DataModel { lists: pruned_lists(self.lists, today), ..self }
    }

    /// The same data with the task of the given key put through `edit`.
    pub open spec fn edited_task(
        self,
        key: TaskKey,
        edit: spec_fn(TaskModel) -> TaskModel,
    ) -> Option<DataModel> {
        match self.position(key) {
            Some((i, j)) => Some(self.with_task(i, j, edit(self.lists[i].tasks[j]))),
            None => None,
        }
    }

    /// The same data with the list of the given number put through `edit`.
    pub open spec fn edited_list(
        self,
        list_id: u64,
        edit: spec_fn(ListModel) -> ListModel,
    ) -> Option<DataModel> {
        match self.list_index(list_id) {
            Some(i) => Some(self.with_list(i, edit(self.lists[i]))),
            None => None,
        }
    }

    /// The same data without the tasks that have the given key.
    pub open spec fn without_task(self, key: TaskKey) -> Option<DataModel> {
        match self.position(key) {
            Some((i, j)) => Some(
                self.with_tasks(i, self.lists[i].tasks.filter(lacks_task_id(key.task_id))),
            ),
            None => None,
        }
    }

    /// The same data without the lists that have the given number.
    pub open spec fn without_list(self, list_id: u64) -> Option<DataModel> {
        match self.list_index(list_id) {
            Some(i) => Some(
                DataModel { lists: self.lists.filter(lacks_list_id(list_id)), ..self },
            ),
            None => None,
        }
    }

    /// A task that is moved to the list at the given position cannot keep its number: a task of that
    /// list has it already, and there is a number left.
    pub open spec fn needs_number(self, task_id: u64, t: int) -> bool {
        &&& first_where(self.lists[t].tasks, has_task_id(task_id)) is Some
        &&& self.next_task_id < u64::MAX
    }

    /// The same data with the task of the given key taken out of its list and put at the end of
    /// another. It keeps its number, unless a task of that list has it already; then it gets the
    /// next one.
    pub open spec fn with_task_moved(self, key: TaskKey, target_list_id: u64) -> Option<DataModel> {
        match (self.position(key), self.list_index(target_list_id)) {
            (Some((i, j)), Some(t)) => if key.list_id == target_list_id {
                None
            } else {
                let task = self.lists[i].tasks[j];
                let taken = self.with_tasks(i, self.lists[i].tasks.remove(j));
                if self.needs_number(key.task_id, t) {
                    let moved = TaskModel { id: self.next_task_id, ..task };
                    let put = taken.with_tasks(t, taken.lists[t].tasks.push(moved));
                    Some(DataModel { next_task_id: (self.next_task_id + 1) as u64, ..put })
                } else {
                    Some(taken.with_tasks(t, taken.lists[t].tasks.push(task)))
                }
            },
            _ => None,
        }
    }

    /// The same data with a new task at the end of a list: no texts, due today, nothing estimated.
    pub open spec fn with_new_task(self, list_id: u64, today: int) -> Option<DataModel> {
        match self.list_index(list_id) {
            Some(i) => {
                let task = new_task(self.next_task_id, today);
                let added = self.with_tasks(i, self.lists[i].tasks.push(task));
                Some(DataModel { next_task_id: (self.next_task_id + 1) as u64, ..added })
            },
            None => None,
        }
    }

    /// The same data with a new list at the end.
    pub open spec fn with_new_list(self) -> DataModel {
        DataModel {
            lists: self.lists.push(new_list(self.next_list_id)),
            next_list_id: (self.next_list_id + 1) as u64,
            ..self
        }
    }

    /// What `step` makes of the data, key by key; a key that it has no result for changes nothing.
    pub open spec fn for_keys(
        self,
        keys: Seq<TaskKey>,
        step: spec_fn(DataModel, TaskKey) -> Option<DataModel>,
    ) -> DataModel
        decreases keys.len(),
    {
        if keys.len() == 0 {
            self
        } else {
            let before = self.for_keys(keys.drop_last(), step);
            match step(before, keys.last()) {
                Some(after) => after,
                None => before,
            }
        }
    }

    /// `step` has a result for one of the keys when its turn comes.
    pub open spec fn changed_by_keys(
        self,
        keys: Seq<TaskKey>,
        step: spec_fn(DataModel, TaskKey) -> Option<DataModel>,
    ) -> bool
        decreases keys.len(),
    {
        keys.len() > 0 && (self.changed_by_keys(keys.drop_last(), step) || step(
            self.for_keys(keys.drop_last(), step),
            keys.last(),
        ) is Some)
    }

    /// What `step` makes of the data for the given keys, if it has a result for one of them.
    pub open spec fn edited_by_keys(
        self,
        keys: Seq<TaskKey>,
        step: spec_fn(DataModel, TaskKey) -> Option<DataModel>,
    ) -> Option<DataModel> {
        if self.changed_by_keys(keys, step) {
            Some(self.for_keys(keys, step))
        } else {
            None
        }
    }
}

pub open spec fn lacks_task_id(id: u64) -> spec_fn(TaskModel) -> bool {
    |task: TaskModel| task.id != id
}

pub open spec fn lacks_list_id(id: u64) -> spec_fn(ListModel) -> bool {
    |list: ListModel| list.id != id
}

pub open spec fn new_task(id: u64, today: int) -> TaskModel {
    TaskModel {
        id,
        title: Seq::empty(),
        description: Seq::empty(),
        due_date: today,
        estimated_minutes: 0,
        actual_minutes: 0,
        completed: false,
        completed_on: None,
    }
}

pub open spec fn new_list(id: u64) -> ListModel {
    ListModel {
        id,
        name: "New List"@,
        priority: 1,
        color_hex: "#4DA3FF"@,
        tasks: Seq::empty(),
    }
}

/// An edit, followed by the removal of completed tasks whose due date lies more than a week back.
pub open spec fn settled(edited: Option<DataModel>, today: int) -> Option<DataModel> {
    match edited {
        Some(data) => Some(data.pruned(today)),
        None => None,
    }
}

/// A task completed today, or no longer completed.
pub open spec fn toggle(today: int) -> spec_fn(TaskModel) -> TaskModel {
    |task: TaskModel|
        TaskModel {
            completed: !task.completed,
            completed_on: if task.completed {
                None
            } else {
                Some(today)
            },
            ..task
        }
}

pub open spec fn set_title(title: Seq<char>) -> spec_fn(TaskModel) -> TaskModel {
    |task: TaskModel| TaskModel { title, ..task }
}

pub open spec fn set_description(description: Seq<char>) -> spec_fn(TaskModel) -> TaskModel {
    |task: TaskModel| TaskModel { description, ..task }
}

pub open spec fn set_estimated(estimated_minutes: u32) -> spec_fn(TaskModel) -> TaskModel {
    |task: TaskModel| TaskModel { estimated_minutes, ..task }
}

pub open spec fn set_actual(actual_minutes: u32) -> spec_fn(TaskModel) -> TaskModel {
    |task: TaskModel| TaskModel { actual_minutes, ..task }
}

pub open spec fn set_due_date(due_date: int) -> spec_fn(TaskModel) -> TaskModel {
    |task: TaskModel| TaskModel { due_date, ..task }
}

pub open spec fn set_name(name: Seq<char>) -> spec_fn(ListModel) -> ListModel {
    |list: ListModel| ListModel { name, ..list }
}

pub open spec fn set_priority(priority: u8) -> spec_fn(ListModel) -> ListModel {
    |list: ListModel| ListModel { priority, ..list }
}

pub open spec fn set_color(color_hex: Seq<char>) -> spec_fn(ListModel) -> ListModel {
    |list: ListModel| ListModel { color_hex, ..list }
}

/// What giving each of several tasks a due date does to one of them.
pub open spec fn due_date_step(due_date: int) -> spec_fn(DataModel, TaskKey) -> Option<DataModel> {
    |data: DataModel, key: TaskKey| data.edited_task(key, set_due_date(due_date))
}

/// What moving each of several tasks to a list does to one of them.
pub open spec fn move_step(target_list_id: u64) -> spec_fn(
    DataModel,
    TaskKey,
) -> Option<DataModel> {
    |data: DataModel, key: TaskKey| data.with_task_moved(key, target_list_id)
}

/// What deleting each of several tasks does to one of them.
pub open spec fn delete_step() -> spec_fn(DataModel, TaskKey) -> Option<DataModel> {
    |data: DataModel, key: TaskKey| data.without_task(key)
}

/// An edit that gives `after`, or that leaves all as it is where there is none; `changed` tells
/// which, and so whether the data have to be saved.
pub open spec fn is_outcome(
    before: DataModel,
    after: Option<DataModel>,
    now: DataModel,
    changed: bool,
) -> bool {
    match after {
        Some(data) => changed && now == data,
        None => !changed && now == before,
    }
}

fn find_list(lists: &Vec<TaskList>, list_id: u64) -> (res: Option<usize>)
    ensures
        match res {
            Some(i) => i < lists@.len() && first_where(views(lists@), has_list_id(list_id)) == Some(
                i as int,
            ),
            None => first_where(views(lists@), has_list_id(list_id)) is None,
        },
{
    let mut i: usize = 0;
    while i < lists.len()
        invariant
            i <= lists@.len(),
            forall|j: int|
                0 <= j < i ==> !has_list_id(list_id)(#[trigger] views(lists@)[j]),
        decreases lists.len() - i,
    {
        assert(views(lists@)[i as int] == lists@[i as int]@);
        if lists[i].id == list_id {
            proof {
                assert(is_first_where(views(lists@), has_list_id(list_id), i as int));
                first_where_is(views(lists@), has_list_id(list_id), i as int);
            }
            return Some(i);
        }
        i += 1;
    }
    proof {
        first_where_is_none(views(lists@), has_list_id(list_id));
    }
    None
}

fn find_task(tasks: &Vec<Task>, task_id: u64) -> (res: Option<usize>)
    ensures
        match res {
            Some(i) => i < tasks@.len() && first_where(views(tasks@), has_task_id(task_id)) == Some(
                i as int,
            ),
            None => first_where(views(tasks@), has_task_id(task_id)) is None,
        },
{
    let mut i: usize = 0;
    while i < tasks.len()
        invariant
            i <= tasks@.len(),
            forall|j: int|
                0 <= j < i ==> !has_task_id(task_id)(#[trigger] views(tasks@)[j]),
        decreases tasks.len() - i,
    {
        assert(views(tasks@)[i as int] == tasks@[i as int]@);
        if tasks[i].id == task_id {
            proof {
                assert(is_first_where(views(tasks@), has_task_id(task_id), i as int));
                first_where_is(views(tasks@), has_task_id(task_id), i as int);
            }
            return Some(i);
        }
        i += 1;
    }
    proof {
        first_where_is_none(views(tasks@), has_task_id(task_id));
    }
    None
}

/// Removes the completed tasks whose due date lies more than a week back.
fn prune_tasks(tasks: &mut Vec<Task>, today: Date)
    ensures
        views(final(tasks)@) == views(old(tasks)@).filter(not_overdue(today@)),
{
    let mut marks: Vec<bool> = Vec::new();
    let mut i: usize = 0;
    while i < tasks.len()
        invariant
            i <= tasks@.len(),
            tasks@ == old(tasks)@,
            marks@.len() == i,
            forall|k: int|
                0 <= k < i ==> #[trigger] marks@[k] == not_overdue(today@)(tasks@[k]@),
        decreases tasks.len() - i,
    {
        let overdue = tasks[i].completed && tasks[i].due_date.lies_back(7, &today);
        marks.push(!overdue);
        i += 1;
    }
    keep_marked(tasks, &marks, Ghost(not_overdue(today@)));
}

/// Removes the tasks with the given number.
fn drop_tasks(tasks: &mut Vec<Task>, task_id: u64)
    ensures
        views(final(tasks)@) == views(old(tasks)@).filter(lacks_task_id(task_id)),
{
    let mut marks: Vec<bool> = Vec::new();
    let mut i: usize = 0;
    while i < tasks.len()
        invariant
            i <= tasks@.len(),
            tasks@ == old(tasks)@,
            marks@.len() == i,
            forall|k: int|
                0 <= k < i ==> #[trigger] marks@[k] == lacks_task_id(task_id)(tasks@[k]@),
        decreases tasks.len() - i,
    {
        marks.push(tasks[i].id != task_id);
        i += 1;
    }
    keep_marked(tasks, &marks, Ghost(lacks_task_id(task_id)));
}

/// Removes the lists with the given number.
fn drop_lists(lists: &mut Vec<TaskList>, list_id: u64)
    ensures
        views(final(lists)@) == views(old(lists)@).filter(lacks_list_id(list_id)),
{
    let mut marks: Vec<bool> = Vec::new();
    let mut i: usize = 0;
    while i < lists.len()
        invariant
            i <= lists@.len(),
            lists@ == old(lists)@,
            marks@.len() == i,
            forall|k: int|
                0 <= k < i ==> #[trigger] marks@[k] == lacks_list_id(list_id)(lists@[k]@),
        decreases lists.len() - i,
    {
        marks.push(lists[i].id != list_id);
        i += 1;
    }
    keep_marked(lists, &marks, Ghost(lacks_list_id(list_id)));
}

impl AppData {
    /// The list with the given number.
    pub fn get_list(&self, list_id: u64) -> (res: Option<&TaskList>)
        ensures
            match res {
                Some(list) => self@.list(list_id) == Some(list@),
                None => self@.list(list_id) is None,
            },
    {
        match find_list(&self.lists, list_id) {
            Some(i) => {
                assert(self@.lists[i as int] == self.lists@[i as int]@);
                Some(&self.lists[i])
            },
            None => None,
        }
    }

    /// The positions of a task: that of its list, and its own there.
    fn find(&self, key: TaskKey) -> (res: Option<(usize, usize)>)
        ensures
            match res {
                Some((i, j)) => {
                    &&& i < self.lists@.len()
                    &&& j < self.lists@[i as int].tasks@.len()
                    &&& self@.position(key) == Some((i as int, j as int))
                },
                None => self@.position(key) is None,
            },
    {
        match find_list(&self.lists, key.list_id) {
            Some(i) => {
                assert(self@.lists[i as int] == self.lists@[i as int]@);
                match find_task(&self.lists[i].tasks, key.task_id) {
                    Some(j) => Some((i, j)),
                    None => None,
                }
            },
            None => None,
        }
    }

    /// The task with the given key.
    pub fn get_task(&self, key: TaskKey) -> (res: Option<&Task>)
        ensures
            match res {
                Some(task) => self@.task(key) == Some(task@),
                None => self@.task(key) is None,
            },
    {
        match self.find(key) {
            Some((i, j)) => {
                assert(self@.lists[i as int] == self.lists@[i as int]@);
                assert(self@.lists[i as int].tasks[j as int]
                    == self.lists@[i as int].tasks@[j as int]@);
                Some(&self.lists[i].tasks[j])
            },
            None => None,
        }
    }

    /// Removes the completed tasks whose due date lies more than a week back, and tells how many
    /// there were.
    pub fn prune_completed_overdue(&mut self, today: Date) -> (removed: usize)
        ensures
            final(self)@ == old(self)@.pruned(today@),
            removed == removed_count(old(self)@.lists, today@),
    {
        let ghost all = self@.lists;
        let ghost before = *self;
        let mut removed: usize = 0;
        let mut i: usize = 0;
        while i < self.lists.len()
            invariant
                i <= self.lists@.len(),
                self.lists@.len() == all.len(),
                all == before@.lists,
                self.counters == before.counters,
                forall|k: int| i <= k < all.len() ==> #[trigger] self.lists@[k]@ == all[k],
                forall|k: int|
                    0 <= k < i ==> #[trigger] self.lists@[k]@ == pruned_list(all[k], today@),
                removed == (if overdue_count(all.take(i as int), today@) <= usize::MAX {
                    overdue_count(all.take(i as int), today@) as usize
                } else {
                    usize::MAX
                }),
            decreases self.lists.len() - i,
        {
            let ghost lists0 = self.lists@;
            assert(self.lists@[i as int]@ == all[i as int]);
            let n: usize = self.lists[i].tasks.len();
            prune_tasks(&mut self.lists[i].tasks, today);
            proof {
                filter_len(all[i as int].tasks, not_overdue(today@));
                assert(all.take(i + 1).drop_last() == all.take(i as int));
                assert(views(lists0[i as int].tasks@).len() == n);
                assert(views(self.lists@[i as int].tasks@).len()
                    == self.lists@[i as int].tasks@.len());
                assert forall|k: int| i + 1 <= k < all.len() implies #[trigger] self.lists@[k]@
                    == all[k] by {
                    assert(self.lists@[k] == lists0[k]);
                }
                assert forall|k: int| 0 <= k < i + 1 implies #[trigger] self.lists@[k]@
                    == pruned_list(all[k], today@) by {
                    if k < i {
                        assert(self.lists@[k] == lists0[k]);
                    }
                }
            }
            let gone: usize = n - self.lists[i].tasks.len();
            removed = if removed <= usize::MAX - gone {
                removed + gone
            } else {
                usize::MAX
            };
            i += 1;
        }
        assert(all.take(all.len() as int) == all);
        assert(self@.lists == pruned_lists(all, today@));
        removed
    }
}

/// What changing one task of one list does to the data.
proof fn task_was_edited(before: AppData, after: AppData, i: int, j: int)
    requires
        0 <= i < before.lists@.len(),
        0 <= j < before.lists@[i].tasks@.len(),
        after.counters == before.counters,
        after.lists@ =~= before.lists@.update(i, after.lists@[i]),
        after.lists@[i].id == before.lists@[i].id,
        after.lists@[i].name == before.lists@[i].name,
        after.lists@[i].priority == before.lists@[i].priority,
        after.lists@[i].color_hex == before.lists@[i].color_hex,
        after.lists@[i].tasks@ =~= before.lists@[i].tasks@.update(j, after.lists@[i].tasks@[j]),
    ensures
        after@ == before@.with_task(i, j, after.lists@[i].tasks@[j]@),
        before@.lists[i].tasks[j] == before.lists@[i].tasks@[j]@,
{
    assert(before@.lists[i] == before.lists@[i]@);
    assert(after.lists@[i]@.tasks == before.lists@[i]@.tasks.update(
        j,
        after.lists@[i].tasks@[j]@,
    ));
    assert(after@.lists == before@.lists.update(i, after.lists@[i]@));
}

/// What changing one list does to the data.
proof fn list_was_edited(before: AppData, after: AppData, i: int)
    requires
        0 <= i < before.lists@.len(),
        after.counters == before.counters,
        after.lists@ == before.lists@.update(i, after.lists@[i]),
    ensures
        after@ == before@.with_list(i, after.lists@[i]@),
        before@.lists[i] == before.lists@[i]@,
{
    assert(after@.lists == before@.lists.update(i, after.lists@[i]@));
}

impl AppData {
    /// Removes the completed tasks whose due date lies more than a week back, as each edit does.
    fn settle(&mut self, today: Date)
        ensures
            final(self)@ == old(self)@.pruned(today@),
    {
        let _removed: usize = self.prune_completed_overdue(today);
    }

    /// Marks a task as completed today, or as not completed. Tells whether there is such a task.
    pub fn toggle_task_completed(&mut self, key: TaskKey, today: Date) -> (changed: bool)
        ensures
            is_outcome(
                old(self)@,
                settled(old(self)@.edited_task(key, toggle(today@)), today@),
                final(self)@,
                changed,
            ),
    {
        match self.find(key) {
            Some((i, j)) => {
                let ghost before = *self;
                let completed = !self.lists[i].tasks[j].completed;
                self.lists[i].tasks[j].completed = completed;
                self.lists[i].tasks[j].completed_on = if completed {
                    Some(today)
                } else {
                    None
                };
                proof {
                    task_was_edited(before, *self, i as int, j as int);
                }
                self.settle(today);
                true
            },
            None => false,
        }
    }

    /// Gives a task another title, without the white space around it. Tells whether there is such a
    /// task and such a title.
    pub fn update_task_title(&mut self, key: TaskKey, title: String, today: Date) -> (changed: bool)
        ensures
            is_outcome(
                old(self)@,
                if trimmed(title@).len() == 0 {
                    None
                } else {
                    settled(old(self)@.edited_task(key, set_title(trimmed(title@))), today@)
                },
                final(self)@,
                changed,
            ),
    {
        match self.find(key) {
            Some((i, j)) => {
                let ghost before = *self;
                let text = trim(title.as_str());
                if text.as_str().is_empty() {
                    return false;
                }
                self.lists[i].tasks[j].title = text;
                proof {
                    task_was_edited(before, *self, i as int, j as int);
                }
                self.settle(today);
                true
            },
            None => false,
        }
    }

    /// Gives a task another description. Tells whether there is such a task.
    pub fn update_task_description(
        &mut self,
        key: TaskKey,
        description: String,
        today: Date,
    ) -> (changed: bool)
        ensures
            is_outcome(
                old(self)@,
                settled(old(self)@.edited_task(key, set_description(description@)), today@),
                final(self)@,
                changed,
            ),
    {
        match self.find(key) {
            Some((i, j)) => {
                let ghost before = *self;
                self.lists[i].tasks[j].description = description;
                proof {
                    task_was_edited(before, *self, i as int, j as int);
                }
                self.settle(today);
                true
            },
            None => false,
        }
    }

    /// Gives a task another estimate. Tells whether there is such a task.
    pub fn update_task_estimated(
        &mut self,
        key: TaskKey,
        estimated_minutes: u32,
        today: Date,
    ) -> (changed: bool)
        ensures
            is_outcome(
                old(self)@,
                settled(old(self)@.edited_task(key, set_estimated(estimated_minutes)), today@),
                final(self)@,
                changed,
            ),
    {
        match self.find(key) {
            Some((i, j)) => {
                let ghost before = *self;
                self.lists[i].tasks[j].estimated_minutes = estimated_minutes;
                proof {
                    task_was_edited(before, *self, i as int, j as int);
                }
                self.settle(today);
                true
            },
            None => false,
        }
    }

    /// Sets the time spent on a task. Tells whether there is such a task.
    pub fn update_task_actual(
        &mut self,
        key: TaskKey,
        actual_minutes: u32,
        today: Date,
    ) -> (changed: bool)
        ensures
            is_outcome(
                old(self)@,
                settled(old(self)@.edited_task(key, set_actual(actual_minutes)), today@),
                final(self)@,
                changed,
            ),
    {
        match self.find(key) {
            Some((i, j)) => {
                let ghost before = *self;
                self.lists[i].tasks[j].actual_minutes = actual_minutes;
                proof {
                    task_was_edited(before, *self, i as int, j as int);
                }
                self.settle(today);
                true
            },
            None => false,
        }
    }

    fn put_due_date(&mut self, key: TaskKey, due_date: Date) -> (changed: bool)
        ensures
            is_outcome(
                old(self)@,
                old(self)@.edited_task(key, set_due_date(due_date@)),
                final(self)@,
                changed,
            ),
    {
        match self.find(key) {
            Some((i, j)) => {
                let ghost before = *self;
                self.lists[i].tasks[j].due_date = due_date;
                proof {
                    task_was_edited(before, *self, i as int, j as int);
                }
                true
            },
            None => false,
        }
    }

    /// Gives a task another due date. Tells whether there is such a task.
    pub fn update_task_due_date(
        &mut self,
        key: TaskKey,
        due_date: Date,
        today: Date,
    ) -> (changed: bool)
        ensures
            is_outcome(
                old(self)@,
                settled(old(self)@.edited_task(key, set_due_date(due_date@)), today@),
                final(self)@,
                changed,
            ),
    {
        let changed = self.put_due_date(key, due_date);
        if changed {
            self.settle(today);
        }
        changed
    }

    /// Renames a list; the name is taken without the white space around it. Tells whether there is
    /// such a list and such a name.
    pub fn update_list_name(&mut self, list_id: u64, name: String, today: Date) -> (changed: bool)
        ensures
            is_outcome(
                old(self)@,
                if trimmed(name@).len() == 0 {
                    None
                } else {
                    settled(old(self)@.edited_list(list_id, set_name(trimmed(name@))), today@)
                },
                final(self)@,
                changed,
            ),
    {
        match find_list(&self.lists, list_id) {
            Some(i) => {
                let ghost before = *self;
                let text = trim(name.as_str());
                if text.as_str().is_empty() {
                    return false;
                }
                self.lists[i].name = text;
                proof {
                    list_was_edited(before, *self, i as int);
                }
                self.settle(today);
                true
            },
            None => false,
        }
    }

    /// Gives a list another priority. Tells whether there is such a list.
    pub fn update_list_priority(
        &mut self,
        list_id: u64,
        priority: u8,
        today: Date,
    ) -> (changed: bool)
        ensures
            is_outcome(
                old(self)@,
                settled(old(self)@.edited_list(list_id, set_priority(priority)), today@),
                final(self)@,
                changed,
            ),
    {
        match find_list(&self.lists, list_id) {
            Some(i) => {
                let ghost before = *self;
                self.lists[i].priority = priority;
                proof {
                    list_was_edited(before, *self, i as int);
                }
                self.settle(today);
                true
            },
            None => false,
        }
    }

    /// Gives a list another color, written in its one form. Tells whether the text names a color
    /// and there is such a list.
    pub fn update_list_color(
        &mut self,
        list_id: u64,
        color_hex: String,
        today: Date,
    ) -> (changed: bool)
        ensures
            is_outcome(
                old(self)@,
                if parsed_color(color_hex@) is None {
                    None
                } else {
                    settled(
                        old(self)@.edited_list(list_id, set_color(normalized_color(color_hex@))),
                        today@,
                    )
                },
                final(self)@,
                changed,
            ),
    {
        if parse_hex_color(color_hex.as_str()).is_none() {
            return false;
        }
        match find_list(&self.lists, list_id) {
            Some(i) => {
                let ghost before = *self;
                self.lists[i].color_hex = normalize_hex_color(color_hex.as_str());
                proof {
                    list_was_edited(before, *self, i as int);
                }
                self.settle(today);
                true
            },
            None => false,
        }
    }
}

impl AppData {
    fn drop_task(&mut self, key: TaskKey) -> (changed: bool)
        ensures
            is_outcome(old(self)@, old(self)@.without_task(key), final(self)@, changed),
    {
        match self.find(key) {
            Some((i, j)) => {
                let ghost before = *self;
                drop_tasks(&mut self.lists[i].tasks, key.task_id);
                proof {
                    list_was_edited(before, *self, i as int);
                }
                true
            },
            None => false,
        }
    }

    /// Deletes a task. Tells whether there is such a task.
    pub fn delete_task(&mut self, key: TaskKey, today: Date) -> (changed: bool)
        ensures
            is_outcome(
                old(self)@,
                settled(old(self)@.without_task(key), today@),
                final(self)@,
                changed,
            ),
    {
        let changed = self.drop_task(key);
        if changed {
            self.settle(today);
        }
        changed
    }

    /// Deletes a list with all its tasks. Tells whether there is such a list.
    pub fn delete_task_list(&mut self, list_id: u64, today: Date) -> (changed: bool)
        ensures
            is_outcome(
                old(self)@,
                settled(old(self)@.without_list(list_id), today@),
                final(self)@,
                changed,
            ),
    {
        match find_list(&self.lists, list_id) {
            Some(i) => {
                drop_lists(&mut self.lists, list_id);
                self.settle(today);
                true
            },
            None => false,
        }
    }

    fn shift_task(&mut self, key: TaskKey, target_list_id: u64) -> (changed: bool)
        ensures
            is_outcome(
                old(self)@,
                old(self)@.with_task_moved(key, target_list_id),
                final(self)@,
                changed,
            ),
    {
        if key.list_id == target_list_id {
            return false;
        }
        match (self.find(key), find_list(&self.lists, target_list_id)) {
            (Some((i, j)), Some(t)) => {
                let ghost before = *self;
                let held = find_task(&self.lists[t].tasks, key.task_id).is_some();
                let mut task = self.lists[i].tasks.remove(j);
                let ghost taken = *self;
                proof {
                    assert(before@.lists[t as int].tasks == views(before.lists@[t as int].tasks@));
                    assert(before@.lists[i as int].tasks[j as int] == task@);
                    assert(taken.lists@[i as int]@.tasks == before.lists@[i as int]@.tasks.remove(
                        j as int,
                    ));
                    list_was_edited(before, taken, i as int);
                }
                if held && self.counters.next_task_id < u64::MAX {
                    let task_id: u64 = self.counters.next_task_id;
                    task.id = task_id;
                    self.counters.next_task_id = task_id + 1;
                }
                let ghost counted = *self;
                self.lists[t].tasks.push(task);
                proof {
                    views_push(taken.lists@[t as int].tasks@, task);
                    list_was_edited(counted, *self, t as int);
                }
                true
            },
            _ => false,
        }
    }

    /// Moves a task to the end of another list; where a task of that list has its number already, it
    /// gets the next one. Tells whether there are such a task and such a list, and the task is not
    /// there already.
    pub fn move_task_to_list(
        &mut self,
        key: TaskKey,
        target_list_id: u64,
        today: Date,
    ) -> (changed: bool)
        ensures
            is_outcome(
                old(self)@,
                settled(old(self)@.with_task_moved(key, target_list_id), today@),
                final(self)@,
                changed,
            ),
    {
        let changed = self.shift_task(key, target_list_id);
        if changed {
            self.settle(today);
        }
        changed
    }

    /// The number of a new task fits.
    pub open spec fn has_task_number(&self) -> bool {
        self@.next_task_id < u64::MAX
    }

    /// The number of a new list fits.
    pub open spec fn has_list_number(&self) -> bool {
        self@.next_list_id < u64::MAX
    }

    /// Tells whether a task can be created: whether there is a number left for the next one.
    pub fn can_create_task(&self) -> (res: bool)
        ensures
            res == self.has_task_number(),
    {
        self.counters.next_task_id < u64::MAX
    }

    /// Tells whether a list can be created: whether there is a number left for the next one.
    pub fn can_create_list(&self) -> (res: bool)
        ensures
            res == self.has_list_number(),
    {
        self.counters.next_list_id < u64::MAX
    }

    /// Puts a new task at the end of a list: no texts, due today, no times. Gives its key, or
    /// nothing where there is no such list.
    pub fn create_task_in_list(&mut self, list_id: u64, today: Date) -> (created: Option<TaskKey>)
        requires
            old(self)@.list_index(list_id) is Some ==> old(self).has_task_number(),
        ensures
            is_outcome(
                old(self)@,
                settled(old(self)@.with_new_task(list_id, today@), today@),
                final(self)@,
                created is Some,
            ),
            created matches Some(key) ==> key == (TaskKey {
                list_id,
                task_id: old(self)@.next_task_id,
            }),
    {
        match find_list(&self.lists, list_id) {
            Some(i) => {
                let ghost before = *self;
                let task_id: u64 = self.counters.next_task_id;
                let task = Task {
                    id: task_id,
                    title: String::new(),
                    description: String::new(),
                    due_date: today,
                    estimated_minutes: 0,
                    actual_minutes: 0,
                    completed: false,
                    completed_on: None,
                };
                assert(task@ == new_task(task_id, today@));
                self.lists[i].tasks.push(task);
                proof {
                    views_push(before.lists@[i as int].tasks@, task);
                    list_was_edited(before, *self, i as int);
                }
                self.counters.next_task_id = task_id + 1;
                assert(Some(self@) == before@.with_new_task(list_id, today@));
                self.settle(today);
                Some(TaskKey { list_id, task_id })
            },
            None => None,
        }
    }

    /// Puts a new list at the end, and gives its number.
    pub fn create_task_list(&mut self, today: Date) -> (list_id: u64)
        requires
            old(self).has_list_number(),
        ensures
            final(self)@ == old(self)@.with_new_list().pruned(today@),
            list_id == old(self)@.next_list_id,
    {
        let ghost before = *self;
        let list_id: u64 = self.counters.next_list_id;
        let list = TaskList {
            id: list_id,
            name: "New List".to_string(),
            priority: 1,
            color_hex: "#4DA3FF".to_string(),
            tasks: Vec::new(),
        };
        assert(list@ == new_list(list_id));
        proof {
            views_push(self.lists@, list);
        }
        self.lists.push(list);
        self.counters.next_list_id = list_id + 1;
        assert(self@ == before@.with_new_list());
        self.settle(today);
        list_id
    }

    /// Gives each of several tasks another due date. Tells whether there is one of them.
    pub fn update_tasks_due_date(
        &mut self,
        keys: &Vec<TaskKey>,
        due_date: Date,
        today: Date,
    ) -> (changed: bool)
        ensures
            is_outcome(
                old(self)@,
                settled(old(self)@.edited_by_keys(keys@, due_date_step(due_date@)), today@),
                final(self)@,
                changed,
            ),
    {
        let ghost before = self@;
        let mut changed = false;
        let mut i: usize = 0;
        while i < keys.len()
            invariant
                i <= keys@.len(),
                self@ == before.for_keys(keys@.take(i as int), due_date_step(due_date@)),
                changed == before.changed_by_keys(keys@.take(i as int), due_date_step(due_date@)),
            decreases keys.len() - i,
        {
            assert(keys@.take(i + 1).drop_last() == keys@.take(i as int));
            if self.put_due_date(keys[i], due_date) {
                changed = true;
            }
            i += 1;
        }
        proof {
            assert(keys@.take(i as int) == keys@);
            unchanged_by_keys(before, keys@, due_date_step(due_date@));
        }
        if changed {
            self.settle(today);
        }
        changed
    }

    /// Moves each of several tasks to the end of a list. Tells whether one of them was moved.
    pub fn move_tasks_to_list(
        &mut self,
        keys: &Vec<TaskKey>,
        target_list_id: u64,
        today: Date,
    ) -> (changed: bool)
        ensures
            is_outcome(
                old(self)@,
                settled(old(self)@.edited_by_keys(keys@, move_step(target_list_id)), today@),
                final(self)@,
                changed,
            ),
    {
        let ghost before = self@;
        let mut changed = false;
        let mut i: usize = 0;
        while i < keys.len()
            invariant
                i <= keys@.len(),
                self@ == before.for_keys(keys@.take(i as int), move_step(target_list_id)),
                changed == before.changed_by_keys(keys@.take(i as int), move_step(target_list_id)),
            decreases keys.len() - i,
        {
            assert(keys@.take(i + 1).drop_last() == keys@.take(i as int));
            if self.shift_task(keys[i], target_list_id) {
                changed = true;
            }
            i += 1;
        }
        proof {
            assert(keys@.take(i as int) == keys@);
            unchanged_by_keys(before, keys@, move_step(target_list_id));
        }
        if changed {
            self.settle(today);
        }
        changed
    }

    /// Deletes each of several tasks. Tells whether there was one of them.
    pub fn delete_tasks(&mut self, keys: &Vec<TaskKey>, today: Date) -> (changed: bool)
        ensures
            is_outcome(
                old(self)@,
                settled(old(self)@.edited_by_keys(keys@, delete_step()), today@),
                final(self)@,
                changed,
            ),
    {
        let ghost before = self@;
        let mut changed = false;
        let mut i: usize = 0;
        while i < keys.len()
            invariant
                i <= keys@.len(),
                self@ == before.for_keys(keys@.take(i as int), delete_step()),
                changed == before.changed_by_keys(keys@.take(i as int), delete_step()),
            decreases keys.len() - i,
        {
            assert(keys@.take(i + 1).drop_last() == keys@.take(i as int));
            if self.drop_task(keys[i]) {
                changed = true;
            }
            i += 1;
        }
        proof {
            assert(keys@.take(i as int) == keys@);
            unchanged_by_keys(before, keys@, delete_step());
        }
        if changed {
            self.settle(today);
        }
        changed
    }
}

/// Where no key has a result, the data stay as they are.
proof fn unchanged_by_keys(
    data: DataModel,
    keys: Seq<TaskKey>,
    step: spec_fn(DataModel, TaskKey) -> Option<DataModel>,
)
    ensures
        !data.changed_by_keys(keys, step) ==> data.for_keys(keys, step) == data,
    decreases keys.len(),
{
    if keys.len() > 0 {
        unchanged_by_keys(data, keys.drop_last(), step);
    }
}

} // verus!
