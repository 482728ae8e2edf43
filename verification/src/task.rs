//! Tasks and task lists.

use vstd::prelude::*;

use crate::date::Date;
use crate::sorting::views;

verus! {

/// Something to do.
#[derive(Debug, PartialEq, Eq)]
pub struct Task {
    pub id: u64,
    pub title: String,
    pub description: String,
    pub due_date: Date,
    pub estimated_minutes: u32,
    pub actual_minutes: u32,
    pub completed: bool,
    pub completed_on: Option<Date>,
}

/// A task, as mathematical values. Dates are day numbers.
#[verifier::ext_equal]
pub struct TaskModel {
    pub id: u64,
    pub title: Seq<char>,
    pub description: Seq<char>,
    pub due_date: int,
    pub estimated_minutes: u32,
    pub actual_minutes: u32,
    pub completed: bool,
    pub completed_on: Option<int>,
}

/// The day number of a date that may be missing.
pub open spec fn optional_day(date: Option<Date>) -> Option<int> {
    match date {
        Some(d) => Some(d@),
        None => None,
    }
}

impl View for Task {
    type V = TaskModel;

    open spec fn view(&self) -> TaskModel {
        TaskModel {
            id: self.id,
            title: self.title@,
            description: self.description@,
            due_date: self.due_date@,
            estimated_minutes: self.estimated_minutes,
            actual_minutes: self.actual_minutes,
            completed: self.completed,
            completed_on: optional_day(self.completed_on),
        }
    }
}

impl Clone for Task {
    fn clone(&self) -> (res: Self)
        ensures
            res@ == self@,
    {
        Task {
            id: self.id,
            title: self.title.clone(),
            description: self.description.clone(),
            due_date: self.due_date,
            estimated_minutes: self.estimated_minutes,
            actual_minutes: self.actual_minutes,
            completed: self.completed,
            completed_on: self.completed_on,
        }
    }
}

/// The estimated time less the time spent, as a 32-bit number: a difference that is too large for
/// one wraps round.
pub open spec fn time_left_of(estimated: u32, actual: u32) -> int {
    let difference = estimated - actual;
    if difference > i32::MAX {
        difference - 0x1_0000_0000
    } else if difference < i32::MIN {
        difference + 0x1_0000_0000
    } else {
        difference
    }
}

/// The time left of any two times that are 32-bit numbers themselves is their difference.
pub proof fn time_left_is_the_difference(estimated: u32, actual: u32)
    requires
        estimated <= i32::MAX,
        actual <= i32::MAX,
    ensures
        time_left_of(estimated, actual) == estimated - actual,
{
}

impl Task {
    /// The estimated time less the time spent.
    pub fn time_left(&self) -> (res: i32)
        ensures
            res == time_left_of(self.estimated_minutes, self.actual_minutes),
    {
        let difference: i64 = self.estimated_minutes as i64 - self.actual_minutes as i64;
        if difference > 0x7FFF_FFFF {
            (difference - 0x1_0000_0000) as i32
        } else if difference < -0x8000_0000 {
            (difference + 0x1_0000_0000) as i32
        } else {
            difference as i32
        }
    }
}

/// A named list of tasks.
#[derive(Debug, PartialEq, Eq)]
pub struct TaskList {
    pub id: u64,
    pub name: String,
    pub priority: u8,
    pub color_hex: String,
    pub tasks: Vec<Task>,
}

/// A task list, as mathematical values.
#[verifier::ext_equal]
pub struct ListModel {
    pub id: u64,
    pub name: Seq<char>,
    pub priority: u8,
    pub color_hex: Seq<char>,
    pub tasks: Seq<TaskModel>,
}

impl View for TaskList {
    type V = ListModel;

    open spec fn view(&self) -> ListModel {
        ListModel {
            id: self.id,
            name: self.name@,
            priority: self.priority,
            color_hex: self.color_hex@,
            tasks: views(self.tasks@),
        }
    }
}

impl Clone for TaskList {
    fn clone(&self) -> (res: Self)
        ensures
            res@ == self@,
    {
        let mut tasks: Vec<Task> = Vec::new();
        let mut i: usize = 0;
        while i < self.tasks.len()
            invariant
                i <= self.tasks@.len(),
                views(tasks@) == views(self.tasks@).take(i as int),
            decreases self.tasks.len() - i,
        {
            let ghost before = tasks@;
            tasks.push(self.tasks[i].clone());
            i += 1;
            assert(views(tasks@) == views(before).push(self.tasks@[i - 1]@));
        }
        assert(views(self.tasks@).take(i as int) == views(self.tasks@));
        TaskList {
            id: self.id,
            name: self.name.clone(),
            priority: self.priority,
            color_hex: self.color_hex.clone(),
            tasks,
        }
    }
}

/// What names a task: its list and its number there.
#[derive(Clone, Copy, Debug, PartialEq, Eq, Structural, Hash)]
pub struct TaskKey {
    pub list_id: u64,
    pub task_id: u64,
}

/// What tasks are sorted by.
#[derive(Clone, Copy, Debug, PartialEq, Eq, Structural)]
pub enum TaskSortMode {
    DueDate,
    TimeLeft,
}

/// What task lists are sorted by.
#[derive(Clone, Copy, Debug, PartialEq, Eq, Structural)]
pub enum ListSortMode {
    RemainingCount,
    Priority,
}

/// A task as a row shows it, with what its list contributes.
#[derive(Debug, PartialEq, Eq)]
pub struct TaskViewItem {
    pub key: TaskKey,
    pub list_name: String,
    pub list_priority: u8,
    pub list_color_hex: String,
    pub title: String,
    pub description: String,
    pub due_date: Date,
    pub estimated_minutes: u32,
    pub actual_minutes: u32,
    pub completed: bool,
    pub time_left: i32,
}

/// A task as a row shows it, as mathematical values.
#[verifier::ext_equal]
pub struct TaskItemModel {
    pub key: TaskKey,
    pub list_name: Seq<char>,
    pub list_priority: u8,
    pub list_color_hex: Seq<char>,
    pub title: Seq<char>,
    pub description: Seq<char>,
    pub due_date: int,
    pub estimated_minutes: u32,
    pub actual_minutes: u32,
    pub completed: bool,
    pub time_left: int,
}

impl View for TaskViewItem {
    type V = TaskItemModel;

    open spec fn view(&self) -> TaskItemModel {
        TaskItemModel {
            key: self.key,
            list_name: self.list_name@,
            list_priority: self.list_priority,
            list_color_hex: self.list_color_hex@,
            title: self.title@,
            description: self.description@,
            due_date: self.due_date@,
            estimated_minutes: self.estimated_minutes,
            actual_minutes: self.actual_minutes,
            completed: self.completed,
            time_left: self.time_left as int,
        }
    }
}

impl Clone for TaskViewItem {
    fn clone(&self) -> (res: Self)
        ensures
            res@ == self@,
    {
        TaskViewItem {
            key: self.key,
            list_name: self.list_name.clone(),
            list_priority: self.list_priority,
            list_color_hex: self.list_color_hex.clone(),
            title: self.title.clone(),
            description: self.description.clone(),
            due_date: self.due_date,
            estimated_minutes: self.estimated_minutes,
            actual_minutes: self.actual_minutes,
            completed: self.completed,
            time_left: self.time_left,
        }
    }
}

/// A task list as a row shows it.
#[derive(Debug, PartialEq, Eq)]
pub struct TaskListViewItem {
    pub list_id: u64,
    pub name: String,
    pub priority: u8,
    pub color_hex: String,
    pub total_items: usize,
    pub remaining_items: usize,
}

/// A task list as a row shows it, as mathematical values.
#[verifier::ext_equal]
pub struct ListItemModel {
    pub list_id: u64,
    pub name: Seq<char>,
    pub priority: u8,
    pub color_hex: Seq<char>,
    pub total_items: nat,
    pub remaining_items: nat,
}

impl View for TaskListViewItem {
    type V = ListItemModel;

    open spec fn view(&self) -> ListItemModel {
        ListItemModel {
            list_id: self.list_id,
            name: self.name@,
            priority: self.priority,
            color_hex: self.color_hex@,
            total_items: self.total_items as nat,
            remaining_items: self.remaining_items as nat,
        }
    }
}

impl Clone for TaskListViewItem {
    fn clone(&self) -> (res: Self)
        ensures
            res@ == self@,
    {
        TaskListViewItem {
            list_id: self.list_id,
            name: self.name.clone(),
            priority: self.priority,
            color_hex: self.color_hex.clone(),
            total_items: self.total_items,
            remaining_items: self.remaining_items,
        }
    }
}

} // verus!
