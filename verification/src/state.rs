//! What the program remembers while it runs: the data, the page, the selections, and what is being
//! edited or asked.

use vstd::prelude::*;

use crate::data::{AppData, DataModel};
use crate::input::{line_of, LineInput, LineModel};
use crate::items::{is_suggested, list_items, task_items};
use crate::seqs::{keep_marked, views_push};
use crate::sorting::views;
use crate::task::{
    ListItemModel, ListSortMode, TaskItemModel, TaskKey, TaskListViewItem, TaskSortMode,
    TaskViewItem,
};
use crate::text::{contains, lower, to_lower, trim, trimmed};

verus! {

/// The two pages.
#[derive(Clone, Copy, Debug, PartialEq, Eq, Structural)]
pub enum Page {
    Main,
    TaskLists,
}

/// A field of a task that is edited in a line.
#[derive(Clone, Copy, Debug, PartialEq, Eq, Structural)]
pub enum TaskField {
    Title,
    Estimated,
    Actual,
    DueDate,
    ListName,
}

/// A field of a list that is edited in a line.
#[derive(Clone, Copy, Debug, PartialEq, Eq, Structural)]
pub enum ListField {
    Name,
    Priority,
    Color,
}

/// What a line edits.
#[derive(Clone, Copy, Debug, PartialEq, Eq, Structural)]
pub enum EditTarget {
    Task(TaskKey, TaskField),
    List(u64, ListField),
}

/// A field that is being edited.
#[derive(Debug)]
pub struct EditorState {
    pub target: EditTarget,
    pub input: LineInput,
    pub suggestion_index: usize,
}

#[verifier::ext_equal]
pub struct EditorModel {
    pub target: EditTarget,
    pub input: LineModel,
    pub suggestion_index: usize,
}

impl View for EditorState {
    type V = EditorModel;

    open spec fn view(&self) -> EditorModel {
        EditorModel {
            target: self.target,
            input: self.input@,
            suggestion_index: self.suggestion_index,
        }
    }
}

/// What is done once it is confirmed.
#[derive(Debug)]
pub enum ConfirmAction {
    DeleteTask(TaskKey),
    DeleteTasks(Vec<TaskKey>),
    DeleteList(u64),
}

#[verifier::ext_equal]
pub enum ActionModel {
    DeleteTask(TaskKey),
    DeleteTasks(Seq<TaskKey>),
    DeleteList(u64),
}

impl View for ConfirmAction {
    type V = ActionModel;

    open spec fn view(&self) -> ActionModel {
        match self {
            ConfirmAction::DeleteTask(key) => ActionModel::DeleteTask(*key),
            ConfirmAction::DeleteTasks(keys) => ActionModel::DeleteTasks(keys@),
            ConfirmAction::DeleteList(list_id) => ActionModel::DeleteList(*list_id),
        }
    }
}

/// A question that is being asked.
#[derive(Debug)]
pub struct ConfirmState {
    pub message: String,
    pub action: ConfirmAction,
}

#[verifier::ext_equal]
pub struct ConfirmModel {
    pub message: Seq<char>,
    pub action: ActionModel,
}

impl View for ConfirmState {
    type V = ConfirmModel;

    open spec fn view(&self) -> ConfirmModel {
        ConfirmModel { message: self.message@, action: self.action@ }
    }
}

/// What is being done to several tasks.
#[derive(Clone, Copy, Debug, PartialEq, Eq, Structural)]
pub enum MultiTaskEditMode {
    Menu,
    DueDate,
    ListName,
}

/// Several tasks that are being edited.
#[derive(Debug)]
pub struct MultiTaskEditState {
    pub keys: Vec<TaskKey>,
    pub mode: MultiTaskEditMode,
    pub input: LineInput,
    pub suggestion_index: usize,
}

#[verifier::ext_equal]
pub struct MultiModel {
    pub keys: Seq<TaskKey>,
    pub mode: MultiTaskEditMode,
    pub input: LineModel,
    pub suggestion_index: usize,
}

impl View for MultiTaskEditState {
    type V = MultiModel;

    open spec fn view(&self) -> MultiModel {
        MultiModel {
            keys: self.keys@,
            mode: self.mode,
            input: self.input@,
            suggestion_index: self.suggestion_index,
        }
    }
}

/// The state of the program.
#[derive(Debug)]
pub struct App {
    pub data: AppData,
    pub page: Page,
    pub running: bool,
    pub main_sort_mode: TaskSortMode,
    pub list_sort_mode: ListSortMode,
    pub list_sort_reversed: bool,
    pub time_left_reversed: bool,
    pub show_completed_in_due_mode: bool,
    pub search_active: bool,
    pub search: LineInput,
    pub list_search_active: bool,
    pub list_search: LineInput,
    pub selected_main_idx: usize,
    pub selected_list_idx: usize,
    pub selected_list_task_idx: usize,
    pub task_selection_anchor: Option<usize>,
    /// The selected tasks, each key once.
    pub multi_selected_tasks: Vec<TaskKey>,
    pub expanded_list_id: Option<u64>,
    pub expanded_task_key: Option<TaskKey>,
    pub editor: Option<EditorState>,
    pub multi_task_edit: Option<MultiTaskEditState>,
    pub confirm: Option<ConfirmState>,
    pub popup_messages: Vec<String>,
    pub show_popup: bool,
    pub notes_text: String,
}

/// The state of the program, as mathematical values.
pub struct AppModel {
    pub data: DataModel,
    pub page: Page,
    pub running: bool,
    pub main_sort_mode: TaskSortMode,
    pub list_sort_mode: ListSortMode,
    pub list_sort_reversed: bool,
    pub time_left_reversed: bool,
    pub show_completed_in_due_mode: bool,
    pub search_active: bool,
    pub search: LineModel,
    pub list_search_active: bool,
    pub list_search: LineModel,
    pub selected_main_idx: usize,
    pub selected_list_idx: usize,
    pub selected_list_task_idx: usize,
    pub task_selection_anchor: Option<usize>,
    pub multi_selected_tasks: Seq<TaskKey>,
    pub expanded_list_id: Option<u64>,
    pub expanded_task_key: Option<TaskKey>,
    pub editor: Option<EditorModel>,
    pub multi_task_edit: Option<MultiModel>,
    pub confirm: Option<ConfirmModel>,
    pub popup_messages: Seq<Seq<char>>,
    pub show_popup: bool,
    pub notes_text: Seq<char>,
}

/// The view of a value that may be missing.
pub open spec fn optional<T: View>(value: Option<T>) -> Option<T::V> {
    match value {
        Some(x) => Some(x@),
        None => None,
    }
}

impl View for App {
    type V = AppModel;

    open spec fn view(&self) -> AppModel {
        AppModel {
            data: self.data@,
            page: self.page,
            running: self.running,
            main_sort_mode: self.main_sort_mode,
            list_sort_mode: self.list_sort_mode,
            list_sort_reversed: self.list_sort_reversed,
            time_left_reversed: self.time_left_reversed,
            show_completed_in_due_mode: self.show_completed_in_due_mode,
            search_active: self.search_active,
            search: self.search@,
            list_search_active: self.list_search_active,
            list_search: self.list_search@,
            selected_main_idx: self.selected_main_idx,
            selected_list_idx: self.selected_list_idx,
            selected_list_task_idx: self.selected_list_task_idx,
            task_selection_anchor: self.task_selection_anchor,
            multi_selected_tasks: self.multi_selected_tasks@,
            expanded_list_id: self.expanded_list_id,
            expanded_task_key: self.expanded_task_key,
            editor: optional(self.editor),
            multi_task_edit: optional(self.multi_task_edit),
            confirm: optional(self.confirm),
            popup_messages: views(self.popup_messages@),
            show_popup: self.show_popup,
            notes_text: self.notes_text@,
        }
    }
}

/// The selection `delta` places on, as far as there are rows.
pub open spec fn shifted(current: usize, len: nat, delta: int) -> usize {
    if len == 0 || current + delta < 0 {
        0
    } else if current + delta >= len {
        (len - 1) as usize
    } else {
        (current + delta) as usize
    }
}

/// The selection, moved to the last row where it stands behind it.
pub open spec fn clamped(current: usize, len: nat) -> usize {
    if len == 0 {
        0
    } else if current >= len {
        (len - 1) as usize
    } else {
        current
    }
}

/// Rows of lists whose names hold the query.
pub open spec fn is_list_found(query: Seq<char>) -> spec_fn(ListItemModel) -> bool {
    |item: ListItemModel| is_suggested(query)(item.name)
}

/// No key stands there twice.
#[verifier::opaque]
pub open spec fn all_differ(keys: Seq<TaskKey>) -> bool {
    keys.no_duplicates()
}

impl AppModel {
    /// All cursors stand in their lines, and no key is selected twice.
    pub open spec fn wf(self) -> bool {
        &&& self.search.wf()
        &&& self.list_search.wf()
        &&& self.editor matches Some(editor) ==> editor.input.wf()
        &&& self.multi_task_edit matches Some(state) ==> state.input.wf()
        &&& all_differ(self.multi_selected_tasks)
    }

    /// The rows of the main page.
    #[verifier::opaque]
    pub open spec fn main_items(self) -> Seq<TaskItemModel> {
        task_items(
            self.data.lists,
            None,
            self.search.text,
            self.main_sort_mode,
            self.time_left_reversed,
            self.show_completed_in_due_mode,
        )
    }

    /// The rows of one list.
    #[verifier::opaque]
    pub open spec fn items_of_list(self, list_id: u64) -> Seq<TaskItemModel> {
        task_items(
            self.data.lists,
            Some(list_id),
            ""@,
            self.main_sort_mode,
            self.time_left_reversed,
            self.show_completed_in_due_mode,
        )
    }

    /// The rows of tasks in front: those of the list that is open, or those of the main page.
    pub open spec fn current_items(self) -> Seq<TaskItemModel> {
        match self.expanded_list_id {
            Some(list_id) => self.items_of_list(list_id),
            None => self.main_items(),
        }
    }

    /// The rows of the task list page.
    #[verifier::opaque]
    pub open spec fn page_lists(self) -> Seq<ListItemModel> {
        let items = list_items(self.data.lists, self.list_sort_mode);
        let turned = if self.list_sort_reversed {
            items.reverse()
        } else {
            items
        };
        turned.filter(is_list_found(self.list_search.text))
    }

    /// The selected row of the tasks in front.
    pub open spec fn current_index(self) -> usize {
        if self.expanded_list_id is Some {
            self.selected_list_task_idx
        } else {
            self.selected_main_idx
        }
    }

    pub open spec fn with_current_index(self, index: usize) -> AppModel {
        if self.expanded_list_id is Some {
            AppModel { selected_list_task_idx: index, ..self }
        } else {
            AppModel { selected_main_idx: index, ..self }
        }
    }

    /// With no tasks selected but the one row.
    pub open spec fn unselected(self) -> AppModel {
        AppModel {
            task_selection_anchor: None,
            multi_selected_tasks: Seq::empty(),
            multi_task_edit: None,
            ..self
        }
    }

    /// With a message in a popup.
    pub open spec fn told(self, message: Seq<char>) -> AppModel {
        AppModel {
            popup_messages: self.popup_messages.push(message),
            show_popup: true,
            ..self
        }
    }

    /// With the selected row of the main page among its rows.
    pub open spec fn main_in_range(self) -> AppModel {
        AppModel {
            selected_main_idx: clamped(self.selected_main_idx, self.main_items().len()),
            ..self
        }
    }

    /// With the selected row of the open list among its rows.
    pub open spec fn list_task_in_range(self) -> AppModel {
        AppModel {
            selected_list_task_idx: match self.expanded_list_id {
                Some(list_id) => clamped(
                    self.selected_list_task_idx,
                    self.items_of_list(list_id).len(),
                ),
                None => 0,
            },
            ..self
        }
    }

    /// With the selected row of the task list page among its rows.
    pub open spec fn list_in_range(self) -> AppModel {
        AppModel {
            selected_list_idx: clamped(self.selected_list_idx, self.page_lists().len()),
            ..self
        }
    }
}

/// The state to begin with.
pub open spec fn started(
    data: DataModel,
    startup_messages: Seq<Seq<char>>,
    notes_text: Seq<char>,
) -> AppModel {
    AppModel {
        data,
        page: Page::Main,
        running: true,
        main_sort_mode: TaskSortMode::DueDate,
        list_sort_mode: ListSortMode::RemainingCount,
        list_sort_reversed: false,
        time_left_reversed: false,
        show_completed_in_due_mode: true,
        search_active: false,
        search: line_of(Seq::empty()),
        list_search_active: false,
        list_search: line_of(Seq::empty()),
        selected_main_idx: 0,
        selected_list_idx: 0,
        selected_list_task_idx: 0,
        task_selection_anchor: None,
        multi_selected_tasks: Seq::empty(),
        expanded_list_id: None,
        expanded_task_key: None,
        editor: None,
        multi_task_edit: None,
        confirm: None,
        popup_messages: startup_messages,
        show_popup: startup_messages.len() > 0,
        notes_text,
    }
}

/// The selection `delta` places on, as far as there are rows.
pub fn shift_index(current: usize, len: usize, delta: isize) -> (res: usize)
    ensures
        res == shifted(current, len as nat, delta as int),
{
    if len == 0 {
        return 0;
    }
    let next: i128 = current as i128 + delta as i128;
    if next < 0 {
        0
    } else if next >= len as i128 {
        len - 1
    } else {
        next as usize
    }
}

/// The selection, moved to the last row where it stands behind it.
pub(crate) fn clamp_index(current: usize, len: usize) -> (res: usize)
    ensures
        res == clamped(current, len as nat),
{
    if len == 0 {
        0
    } else if current >= len {
        len - 1
    } else {
        current
    }
}

impl App {
    /// The state to begin with.
    pub fn new(data: AppData, startup_messages: Vec<String>, notes_text: String) -> (res: App)
        ensures
            res@ == started(data@, views(startup_messages@), notes_text@),
            res@.wf(),
    {
        proof {
            reveal(all_differ);
        }
        let show_popup = startup_messages.len() > 0;
        App {
            data,
            page: Page::Main,
            running: true,
            main_sort_mode: TaskSortMode::DueDate,
            list_sort_mode: ListSortMode::RemainingCount,
            list_sort_reversed: false,
            time_left_reversed: false,
            show_completed_in_due_mode: true,
            search_active: false,
            search: LineInput::new(),
            list_search_active: false,
            list_search: LineInput::new(),
            selected_main_idx: 0,
            selected_list_idx: 0,
            selected_list_task_idx: 0,
            task_selection_anchor: None,
            multi_selected_tasks: Vec::new(),
            expanded_list_id: None,
            expanded_task_key: None,
            editor: None,
            multi_task_edit: None,
            confirm: None,
            popup_messages: startup_messages,
            show_popup,
            notes_text,
        }
    }

    /// The rows of the main page.
    pub fn main_items(&self) -> (res: Vec<TaskViewItem>)
        ensures
            views(res@) == self@.main_items(),
    {
        proof {
            reveal(AppModel::main_items);
        }
        self.data.main_task_items(
            self.search.text().as_str(),
            self.main_sort_mode,
            self.time_left_reversed,
            self.show_completed_in_due_mode,
        )
    }

    /// The rows of one list.
    pub fn items_of_list(&self, list_id: u64) -> (res: Vec<TaskViewItem>)
        ensures
            views(res@) == self@.items_of_list(list_id),
    {
        proof {
            reveal(AppModel::items_of_list);
        }
        self.data.list_task_items(
            list_id,
            "",
            self.main_sort_mode,
            self.time_left_reversed,
            self.show_completed_in_due_mode,
        )
    }

    /// The rows of tasks in front: those of the list that is open, or those of the main page.
    pub fn current_task_items(&self) -> (res: Vec<TaskViewItem>)
        ensures
            views(res@) == self@.current_items(),
    {
        match self.expanded_list_id {
            Some(list_id) => self.items_of_list(list_id),
            None => self.main_items(),
        }
    }

    /// The rows of the task list page.
    pub fn filtered_task_list_items(&self) -> (res: Vec<TaskListViewItem>)
        ensures
            views(res@) == self@.page_lists(),
    {
        proof {
            reveal(AppModel::page_lists);
        }
        let items = self.data.task_list_items(self.list_sort_mode);
        let turned = if self.list_sort_reversed {
            reverse_items(items)
        } else {
            items
        };
        let query = self.list_search.text();
        let query_lc = to_lower(trim(query.as_str()).as_str());
        let mut marks: Vec<bool> = Vec::new();
        let mut i: usize = 0;
        while i < turned.len()
            invariant
                i <= turned@.len(),
                query@ == self@.list_search.text,
                query_lc@ == lower(trimmed(query@)),
                marks@.len() == i,
                forall|k: int|
                    0 <= k < i ==> #[trigger] marks@[k] == is_list_found(query@)(turned@[k]@),
            decreases turned.len() - i,
        {
            marks.push(
                query_lc.as_str().is_empty() || contains(
                    to_lower(turned[i].name.as_str()).as_str(),
                    query_lc.as_str(),
                ),
            );
            i += 1;
        }
        let mut res = turned;
        keep_marked(&mut res, &marks, Ghost(is_list_found(query@)));
        res
    }

    /// The selected row of the tasks in front.
    pub(crate) fn current_task_selection_index(&self) -> (res: usize)
        ensures
            res == self@.current_index(),
    {
        if self.expanded_list_id.is_some() {
            self.selected_list_task_idx
        } else {
            self.selected_main_idx
        }
    }

    pub(crate) fn set_current_task_selection_index(&mut self, value: usize)
        ensures
            final(self)@ == old(self)@.with_current_index(value),
    {
        if self.expanded_list_id.is_some() {
            self.selected_list_task_idx = value;
        } else {
            self.selected_main_idx = value;
        }
    }

    pub(crate) fn clear_multi_selection(&mut self)
        ensures
            final(self)@ == old(self)@.unselected(),
    {
        self.task_selection_anchor = None;
        self.multi_selected_tasks = Vec::new();
        self.multi_task_edit = None;
    }

    pub(crate) fn push_popup(&mut self, message: String)
        ensures
            final(self)@ == old(self)@.told(message@),
    {
        proof {
            views_push(self.popup_messages@, message);
        }
        self.popup_messages.push(message);
        self.show_popup = true;
    }

    pub(crate) fn normalize_main_selection(&mut self)
        ensures
            final(self)@ == old(self)@.main_in_range(),
    {
        let items = self.main_items();
        assert(views(items@).len() == items@.len());
        self.selected_main_idx = clamp_index(self.selected_main_idx, items.len());
    }

    pub(crate) fn normalize_list_task_selection(&mut self)
        ensures
            final(self)@ == old(self)@.list_task_in_range(),
    {
        match self.expanded_list_id {
            Some(list_id) => {
                let items = self.items_of_list(list_id);
                assert(views(items@).len() == items@.len());
                self.selected_list_task_idx =
                clamp_index(self.selected_list_task_idx, items.len());
            },
            None => {
                self.selected_list_task_idx = 0;
            },
        }
    }

    pub(crate) fn normalize_list_selection(&mut self)
        ensures
            final(self)@ == old(self)@.list_in_range(),
    {
        let items = self.filtered_task_list_items();
        assert(views(items@).len() == items@.len());
        self.selected_list_idx = clamp_index(self.selected_list_idx, items.len());
    }
}

fn reverse_items(items: Vec<TaskListViewItem>) -> (res: Vec<TaskListViewItem>)
    ensures
        views(res@) == views(items@).reverse(),
{
    let ghost all = views(items@);
    let mut items = items;
    let mut res: Vec<TaskListViewItem> = Vec::new();
    while items.len() > 0
        invariant
            items@.len() <= all.len(),
            views(items@) == all.take(items@.len() as int),
            views(res@) == all.skip(items@.len() as int).reverse(),
        decreases items.len(),
    {
        let ghost n = items@.len() - 1;
        let ghost items0 = items@;
        let last: usize = items.len() - 1;
        let item = items.remove(last);
        proof {
            assert(views(items0)[n] == item@);
            assert(views(items@) == all.take(n)) by {
                assert forall|k: int| 0 <= k < n implies views(items@)[k] == all.take(n)[k] by {
                    assert(views(items0)[k] == all[k]);
                }
            }
            views_push(res@, item);
            assert(all.skip(n + 1).reverse().push(item@) == all.skip(n).reverse());
        }
        res.push(item);
    }
    assert(all.skip(0) == all);
    res
}

} // verus!
