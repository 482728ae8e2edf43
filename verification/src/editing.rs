//! What the keys do while a field or several tasks are edited, or a question is asked.

use vstd::prelude::*;
use vstd::string::*;

use crate::color::is_ascii_hexdigit;
use crate::color::{is_hex_digit, normalized_color, parsed_color};
use crate::data::{
    delete_step, due_date_step, move_step, set_actual, set_color, set_due_date, set_estimated,
    set_name, set_priority, set_title, settled, DataModel,
};
use crate::date::{parsed_day, Date};
use crate::effects::{edited, idle, AfterSave, Effect, Step};
use crate::input::{line_of, KeyCode, KeyPress, LineInput};
use crate::items::{id_of_just_name, id_of_name, suggestions};
use crate::keys::row_in_range;
use crate::sorting::views;
use crate::state::{
    ActionModel, App, AppModel, ConfirmAction, ConfirmModel, ConfirmState, EditTarget, EditorModel,
    EditorState, ListField, MultiModel, MultiTaskEditMode, MultiTaskEditState, TaskField,
};
use crate::task::{ListModel, TaskKey};
use crate::text::{decimal, is_digit, parse_number, parsed_number, to_decimal, trim, trimmed};

verus! {

pub open spec fn bad_date_message() -> Seq<char> {
    "invalid due date format; use YYYY-MM-DD"@
}

/// The next suggestion, as far as there are any.
pub open spec fn next_suggestion(index: usize, count: nat) -> usize {
    if count == 0 {
        index
    } else if index + 1 < count {
        (index + 1) as usize
    } else {
        (count - 1) as usize
    }
}

/// The suggestion before.
pub open spec fn previous_suggestion(index: usize) -> usize {
    if index == 0 {
        0
    } else {
        (index - 1) as usize
    }
}

/// The list that is chosen: one with just the name that is suggested, or where nothing is, one with
/// the name that was typed, the letters `A` to `Z` taken as `a` to `z`.
pub open spec fn chosen_list(lists: Seq<ListModel>, input: Seq<char>, index: usize) -> Option<u64> {
    if index < suggestions(lists, input).len() {
        id_of_just_name(lists, suggestions(lists, input)[index as int])
    } else {
        id_of_name(lists, trimmed(input))
    }
}

/// A character can be typed into a field that holds `len` characters already.
pub open spec fn is_typed(target: EditTarget, c: char, len: nat) -> bool {
    match target {
        EditTarget::Task(_, TaskField::Title) => len < 30,
        EditTarget::Task(_, TaskField::Estimated) => is_digit(c),
        EditTarget::Task(_, TaskField::Actual) => is_digit(c),
        EditTarget::Task(_, TaskField::DueDate) => is_digit(c) || c == '-',
        EditTarget::Task(_, TaskField::ListName) => true,
        EditTarget::List(_, ListField::Name) => true,
        EditTarget::List(_, ListField::Priority) => is_digit(c),
        EditTarget::List(_, ListField::Color) => (is_hex_digit(c) || c == '#') && len < 7,
    }
}

/// The name of a list is typed, so that suggestions change with each character.
pub open spec fn is_name_field(target: EditTarget) -> bool {
    match target {
        EditTarget::Task(_, TaskField::ListName) => true,
        EditTarget::List(_, ListField::Name) => true,
        _ => false,
    }
}

/// What typing a character does to a field.
pub open spec fn typed(editor: EditorModel, c: char) -> EditorModel {
    if is_typed(editor.target, c, editor.input.text.len()) {
        EditorModel {
            input: editor.input.inserted(c),
            suggestion_index: if is_name_field(editor.target) {
                0
            } else {
                editor.suggestion_index
            },
            ..editor
        }
    } else {
        editor
    }
}

/// A list is chosen for a task.
pub open spec fn is_list_choice(target: EditTarget) -> bool {
    match target {
        EditTarget::Task(_, TaskField::ListName) => true,
        _ => false,
    }
}

/// What a key does to a field that is being edited, but for those that end it.
pub open spec fn field_key(lists: Seq<ListModel>, editor: EditorModel, key: KeyPress) -> EditorModel {
    match key.code {
        KeyCode::Down => if is_list_choice(editor.target) {
            EditorModel {
                suggestion_index: next_suggestion(
                    editor.suggestion_index,
                    suggestions(lists, editor.input.text).len(),
                ),
                ..editor
            }
        } else {
            editor
        },
        KeyCode::Up => if is_list_choice(editor.target) {
            EditorModel {
                suggestion_index: previous_suggestion(editor.suggestion_index),
                ..editor
            }
        } else {
            editor
        },
        KeyCode::Backspace | KeyCode::Delete => EditorModel {
            input: editor.input.edited(key.code),
            suggestion_index: 0,
            ..editor
        },
        KeyCode::Char(c) => if key.control {
            editor
        } else {
            typed(editor, c)
        },
        _ => EditorModel { input: editor.input.edited(key.code), ..editor },
    }
}

/// The data with a field of a task set to what was typed.
pub open spec fn task_field_set(
    data: DataModel,
    key: TaskKey,
    field: TaskField,
    input: Seq<char>,
    today: int,
) -> Option<DataModel> {
    match field {
        TaskField::Title => if trimmed(input).len() == 0 {
            None
        } else {
            settled(data.edited_task(key, set_title(trimmed(input))), today)
        },
        TaskField::Estimated => match parsed_number(input, u32::MAX as nat) {
            Some(value) => settled(data.edited_task(key, set_estimated(value as u32)), today),
            None => None,
        },
        TaskField::Actual => match parsed_number(input, u32::MAX as nat) {
            Some(value) => settled(data.edited_task(key, set_actual(value as u32)), today),
            None => None,
        },
        TaskField::DueDate => match parsed_day(trimmed(input)) {
            Some(day) => settled(data.edited_task(key, set_due_date(day)), today),
            None => None,
        },
        TaskField::ListName => None,
    }
}

/// The data with a field of a list set to what was typed.
pub open spec fn list_field_set(
    data: DataModel,
    list_id: u64,
    field: ListField,
    input: Seq<char>,
    today: int,
) -> Option<DataModel> {
    match field {
        ListField::Name => if trimmed(input).len() == 0 {
            None
        } else {
            settled(data.edited_list(list_id, set_name(trimmed(input))), today)
        },
        ListField::Priority => match parsed_number(input, u8::MAX as nat) {
            Some(value) => settled(data.edited_list(list_id, set_priority(value as u8)), today),
            None => None,
        },
        ListField::Color => if parsed_color(input) is None {
            None
        } else {
            settled(data.edited_list(list_id, set_color(normalized_color(input))), today)
        },
    }
}

/// The state after a task is moved to the list that was chosen.
#[verifier::opaque]
pub open spec fn list_chosen(
    app: AppModel,
    key: TaskKey,
    input: Seq<char>,
    index: usize,
    today: int,
) -> Step {
    match chosen_list(app.data.lists, input, index) {
        Some(list_id) => {
            let step = edited(app, settled(app.data.with_task_moved(key, list_id), today));
            Step { app: row_in_range(step.app), ..step }
        },
        None => idle(app),
    }
}

/// The state after a field is edited: what was typed is taken over where it makes sense.
#[verifier::opaque]
pub open spec fn field_taken(app: AppModel, editor: EditorModel, today: int) -> Step {
    let input = editor.input.text;
    match editor.target {
        EditTarget::Task(key, field) => if field == TaskField::ListName {
            list_chosen(app, key, input, editor.suggestion_index, today)
        } else if field == TaskField::DueDate && parsed_day(trimmed(input)) is None {
            idle(app.told(bad_date_message()))
        } else {
            edited(app, task_field_set(app.data, key, field, input, today))
        },
        EditTarget::List(list_id, field) => edited(
            app,
            list_field_set(app.data, list_id, field, input, today),
        ),
    }
}

/// What a key does while a field is edited.
pub open spec fn editor_key(app: AppModel, editor: EditorModel, key: KeyPress, today: int) -> Step {
    match key.code {
        KeyCode::Esc => idle(AppModel { editor: None, ..app }),
        KeyCode::Enter => field_taken(AppModel { editor: None, ..app }, editor, today),
        _ => idle(AppModel { editor: Some(field_key(app.data.lists, editor, key)), ..app }),
    }
}

/// The state after tasks were edited together.
pub open spec fn tasks_settled(app: AppModel) -> AppModel {
    app.unselected().main_in_range().list_task_in_range()
}

/// The state after a task was deleted.
#[verifier::opaque]
pub open spec fn task_deleted(app: AppModel, key: TaskKey, today: int) -> Step {
    let step = edited(app, settled(app.data.without_task(key), today));
    let closed = AppModel {
        expanded_task_key: if app.expanded_task_key == Some(key) {
            None
        } else {
            app.expanded_task_key
        },
        ..step.app
    };
    Step { app: closed.main_in_range().list_task_in_range(), ..step }
}

/// The state after several tasks were deleted.
#[verifier::opaque]
pub open spec fn tasks_deleted(app: AppModel, keys: Seq<TaskKey>, today: int) -> Step {
    let step = edited(app, settled(app.data.edited_by_keys(keys, delete_step()), today));
    Step { app: tasks_settled(step.app), ..step }
}

/// The state after a list was deleted.
#[verifier::opaque]
pub open spec fn list_deleted(app: AppModel, list_id: u64, today: int) -> Step {
    let step = edited(app, settled(app.data.without_list(list_id), today));
    let was_open = app.expanded_list_id == Some(list_id);
    let closed = AppModel {
        expanded_list_id: if was_open {
            None
        } else {
            app.expanded_list_id
        },
        selected_list_task_idx: if was_open {
            0
        } else {
            app.selected_list_task_idx
        },
        expanded_task_key: match app.expanded_task_key {
            Some(key) => if key.list_id == list_id {
                None
            } else {
                Some(key)
            },
            None => None,
        },
        ..step.app
    };
    Step { app: closed.list_in_range().main_in_range(), ..step }
}

/// The state after what was confirmed is done.
pub open spec fn confirmed(app: AppModel, action: ActionModel, today: int) -> Step {
    match action {
        ActionModel::DeleteTask(key) => task_deleted(app, key, today),
        ActionModel::DeleteTasks(keys) => tasks_deleted(app, keys, today),
        ActionModel::DeleteList(list_id) => list_deleted(app, list_id, today),
    }
}

/// The keys that say yes.
pub open spec fn is_yes(code: KeyCode) -> bool {
    code == KeyCode::Enter || code == KeyCode::Char('y') || code == KeyCode::Char('Y')
}

/// The keys that say no.
pub open spec fn is_no(code: KeyCode) -> bool {
    code == KeyCode::Esc || code == KeyCode::Char('n') || code == KeyCode::Char('N')
}

/// What a key does while a question is asked.
pub open spec fn confirm_key(
    app: AppModel,
    question: ConfirmModel,
    key: KeyPress,
    today: int,
) -> Step {
    if is_yes(key.code) {
        confirmed(AppModel { confirm: None, ..app }, question.action, today)
    } else if is_no(key.code) {
        idle(AppModel { confirm: None, ..app })
    } else {
        idle(app)
    }
}

/// What a key does to the line in which a date for several tasks is typed.
pub open spec fn multi_date_key(state: MultiModel, key: KeyPress) -> MultiModel {
    match key.code {
        KeyCode::Char(c) => if is_digit(c) || c == '-' {
            MultiModel { input: state.input.inserted(c), ..state }
        } else {
            state
        },
        _ => MultiModel { input: state.input.edited(key.code), ..state },
    }
}

/// What a key does to the line in which a list for several tasks is typed.
pub open spec fn multi_list_key(lists: Seq<ListModel>, state: MultiModel, key: KeyPress) -> MultiModel {
    match key.code {
        KeyCode::Up => MultiModel {
            suggestion_index: previous_suggestion(state.suggestion_index),
            ..state
        },
        KeyCode::Down => MultiModel {
            suggestion_index: next_suggestion(
                state.suggestion_index,
                suggestions(lists, state.input.text).len(),
            ),
            ..state
        },
        KeyCode::Backspace | KeyCode::Delete => MultiModel {
            input: state.input.edited(key.code),
            suggestion_index: 0,
            ..state
        },
        KeyCode::Char(c) => if key.control {
            state
        } else {
            MultiModel { input: state.input.inserted(c), suggestion_index: 0, ..state }
        },
        _ => MultiModel { input: state.input.edited(key.code), ..state },
    }
}

/// The state after a date for several tasks was typed.
#[verifier::opaque]
pub open spec fn multi_date_taken(app: AppModel, state: MultiModel, today: int) -> Step {
    match parsed_day(trimmed(state.input.text)) {
        Some(day) => {
            let step = edited(
                app,
                settled(app.data.edited_by_keys(state.keys, due_date_step(day)), today),
            );
            Step { app: tasks_settled(step.app), ..step }
        },
        None => idle(app.told(bad_date_message())),
    }
}

/// The state after a list for several tasks was chosen.
#[verifier::opaque]
pub open spec fn multi_list_taken(app: AppModel, state: MultiModel, today: int) -> Step {
    match chosen_list(app.data.lists, state.input.text, state.suggestion_index) {
        Some(list_id) => {
            let step = edited(
                app,
                settled(app.data.edited_by_keys(state.keys, move_step(list_id)), today),
            );
            Step { app: tasks_settled(step.app), ..step }
        },
        None => idle(app),
    }
}

/// With the question whether to delete several tasks.
#[verifier::opaque]
pub open spec fn multi_delete_asked(app: AppModel, state: MultiModel) -> AppModel {
    AppModel {
        multi_task_edit: None,
        confirm: Some(
            ConfirmModel {
                message: "Delete "@ + decimal(state.keys.len()) + " selected tasks?"@,
                action: ActionModel::DeleteTasks(state.keys),
            },
        ),
        ..app
    }
}

/// With the line for a date or a list open.
pub open spec fn multi_line_opened(state: MultiModel, mode: MultiTaskEditMode) -> MultiModel {
    MultiModel {
        mode,
        input: line_of(Seq::empty()),
        suggestion_index: if mode == MultiTaskEditMode::ListName {
            0
        } else {
            state.suggestion_index
        },
        ..state
    }
}

/// What a key does in the menu for several tasks.
pub open spec fn multi_menu_key(app: AppModel, state: MultiModel, key: KeyPress) -> AppModel {
    match key.code {
        KeyCode::Esc => AppModel { multi_task_edit: None, ..app },
        KeyCode::Char(c) => if c == 'r' {
            AppModel {
                multi_task_edit: Some(multi_line_opened(state, MultiTaskEditMode::DueDate)),
                ..app
            }
        } else if c == 'l' {
            AppModel {
                multi_task_edit: Some(multi_line_opened(state, MultiTaskEditMode::ListName)),
                ..app
            }
        } else if c == 'd' {
            multi_delete_asked(app, state)
        } else {
            app
        },
        _ => app,
    }
}

/// What a key does while several tasks are edited.
pub open spec fn multi_key(app: AppModel, state: MultiModel, key: KeyPress, today: int) -> Step {
    match state.mode {
        MultiTaskEditMode::Menu => idle(multi_menu_key(app, state, key)),
        MultiTaskEditMode::DueDate => match key.code {
            KeyCode::Esc => idle(
                AppModel {
                    multi_task_edit: Some(MultiModel { mode: MultiTaskEditMode::Menu, ..state }),
                    ..app
                },
            ),
            KeyCode::Enter => multi_date_taken(app, state, today),
            _ => idle(AppModel { multi_task_edit: Some(multi_date_key(state, key)), ..app }),
        },
        MultiTaskEditMode::ListName => match key.code {
            KeyCode::Esc => idle(
                AppModel {
                    multi_task_edit: Some(MultiModel { mode: MultiTaskEditMode::Menu, ..state }),
                    ..app
                },
            ),
            KeyCode::Enter => multi_list_taken(app, state, today),
            _ => idle(
                AppModel {
                    multi_task_edit: Some(multi_list_key(app.data.lists, state, key)),
                    ..app
                },
            ),
        },
    }
}

fn is_digit_char(c: char) -> (res: bool)
    ensures
        res == is_digit(c),
{
    '0' <= c && c <= '9'
}

/// Tells whether a character can be typed into a field that holds `len` characters already.
pub fn accepts_char(target: EditTarget, c: char, len: usize) -> (res: bool)
    ensures
        res == is_typed(target, c, len as nat),
{
    match target {
        EditTarget::Task(_, field) => match field {
            TaskField::Title => len < 30,
            TaskField::Estimated => is_digit_char(c),
            TaskField::Actual => is_digit_char(c),
            TaskField::DueDate => is_digit_char(c) || c == '-',
            TaskField::ListName => true,
        },
        EditTarget::List(_, field) => match field {
            ListField::Name => true,
            ListField::Priority => is_digit_char(c),
            ListField::Color => (is_ascii_hexdigit(c) || c == '#') && len < 7,
        },
    }
}

impl App {
    fn suggestion_after(&self, input: &LineInput, index: usize) -> (res: usize)
        ensures
            res == next_suggestion(index, suggestions(self@.data.lists, input@.text).len()),
    {
        let names = self.data.list_name_suggestions(input.text().as_str());
        assert(views(names@).len() == names@.len());
        let count: usize = names.len();
        if count == 0 {
            index
        } else if index < count - 1 {
            index + 1
        } else {
            count - 1
        }
    }

    fn choose_list(&self, input: &LineInput, index: usize) -> (res: Option<u64>)
        ensures
            res == chosen_list(self@.data.lists, input@.text, index),
    {
        let text = input.text();
        let names = self.data.list_name_suggestions(text.as_str());
        let ghost all = views(names@);
        assert(all.len() == names@.len());
        if index < names.len() {
            assert(all[index as int] == names@[index as int]@);
            self.data.find_list_id_by_just_name(names[index].as_str())
        } else {
            self.data.find_list_id_by_name(trim(text.as_str()).as_str())
        }
    }

    fn edit_field(&self, editor: EditorState, key: KeyPress) -> (res: EditorState)
        requires
            editor@.input.wf(),
        ensures
            res@ == field_key(self@.data.lists, editor@, key),
            res@.input.wf(),
    {
        let mut editor = editor;
        let is_choice = match editor.target {
            EditTarget::Task(_, field) => field == TaskField::ListName,
            EditTarget::List(_, _) => false,
        };
        match key.code {
            KeyCode::Down => {
                if is_choice {
                    editor.suggestion_index =
                    self.suggestion_after(&editor.input, editor.suggestion_index);
                }
            },
            KeyCode::Up => {
                if is_choice && editor.suggestion_index > 0 {
                    editor.suggestion_index = editor.suggestion_index - 1;
                }
            },
            KeyCode::Backspace | KeyCode::Delete => {
                editor.input.edit(key.code);
                editor.suggestion_index = 0;
            },
            KeyCode::Char(c) => {
                if !key.control && accepts_char(editor.target, c, editor.input.chars.len()) {
                    editor.input.insert(c);
                    let is_name = match editor.target {
                        EditTarget::Task(_, field) => field == TaskField::ListName,
                        EditTarget::List(_, field) => field == ListField::Name,
                    };
                    if is_name {
                        editor.suggestion_index = 0;
                    }
                }
            },
            _ => {
                editor.input.edit(key.code);
            },
        }
        editor
    }

    fn take_list_choice(
        &mut self,
        key: TaskKey,
        input: &LineInput,
        index: usize,
        today: Date,
    ) -> (effect: Effect)
        ensures
            (Step { app: final(self)@, effect: effect@ }) == list_chosen(
                old(self)@,
                key,
                input@.text,
                index,
                today@,
            ),
    {
        proof {
            reveal(list_chosen);
        }
        match self.choose_list(input, index) {
            Some(list_id) => {
                let changed = self.data.move_task_to_list(key, list_id, today);
                if self.expanded_list_id.is_some() {
                    self.normalize_list_task_selection();
                } else {
                    self.normalize_main_selection();
                }
                if changed {
                    Effect::Save(AfterSave::Report)
                } else {
                    Effect::Idle
                }
            },
            None => Effect::Idle,
        }
    }

    /// Sets a field of a task to what was typed. Tells whether that changed anything.
    fn set_task_field(
        &mut self,
        key: TaskKey,
        field: TaskField,
        input: String,
        today: Date,
    ) -> (changed: bool)
        ensures
            crate::data::is_outcome(
                old(self)@.data,
                task_field_set(old(self)@.data, key, field, input@, today@),
                final(self)@.data,
                changed,
            ),
            final(self)@ == (AppModel { data: final(self)@.data, ..old(self)@ }),
    {
        match field {
            TaskField::Title => self.data.update_task_title(key, input, today),
            TaskField::Estimated => match parse_number(input.as_str(), u32::MAX) {
                Some(value) => self.data.update_task_estimated(key, value, today),
                None => false,
            },
            TaskField::Actual => match parse_number(input.as_str(), u32::MAX) {
                Some(value) => self.data.update_task_actual(key, value, today),
                None => false,
            },
            TaskField::DueDate => match Date::parse(trim(input.as_str()).as_str()) {
                Some(day) => self.data.update_task_due_date(key, day, today),
                None => false,
            },
            TaskField::ListName => false,
        }
    }

    /// Sets a field of a list to what was typed. Tells whether that changed anything.
    fn set_list_field(
        &mut self,
        list_id: u64,
        field: ListField,
        input: String,
        today: Date,
    ) -> (changed: bool)
        ensures
            crate::data::is_outcome(
                old(self)@.data,
                list_field_set(old(self)@.data, list_id, field, input@, today@),
                final(self)@.data,
                changed,
            ),
            final(self)@ == (AppModel { data: final(self)@.data, ..old(self)@ }),
    {
        match field {
            ListField::Name => self.data.update_list_name(list_id, input, today),
            ListField::Priority => match parse_number(input.as_str(), 255) {
                Some(value) => self.data.update_list_priority(list_id, value as u8, today),
                None => false,
            },
            ListField::Color => self.data.update_list_color(list_id, input, today),
        }
    }

    /// Takes over what was typed into a field.
    fn commit_edit(&mut self, editor: EditorState, today: Date) -> (effect: Effect)
        ensures
            (Step { app: final(self)@, effect: effect@ }) == field_taken(
                old(self)@,
                editor@,
                today@,
            ),
    {
        proof {
            reveal(field_taken);
        }
        let input = editor.input.text();
        match editor.target {
            EditTarget::Task(key, field) => {
                if field == TaskField::ListName {
                    return self.take_list_choice(
                        key,
                        &editor.input,
                        editor.suggestion_index,
                        today,
                    );
                }
                if field == TaskField::DueDate && Date::parse(
                    trim(input.as_str()).as_str(),
                ).is_none() {
                    self.push_popup("invalid due date format; use YYYY-MM-DD".to_string());
                    return Effect::Idle;
                }
                if self.set_task_field(key, field, input, today) {
                    Effect::Save(AfterSave::Report)
                } else {
                    Effect::Idle
                }
            },
            EditTarget::List(list_id, field) => {
                if self.set_list_field(list_id, field, input, today) {
                    Effect::Save(AfterSave::Report)
                } else {
                    Effect::Idle
                }
            },
        }
    }

    pub(crate) fn handle_editor_key(
        &mut self,
        editor: EditorState,
        key: KeyPress,
        today: Date,
    ) -> (effect: Effect)
        requires
            old(self)@.wf(),
            old(self)@.editor is None,
            editor@.input.wf(),
        ensures
            (Step { app: final(self)@, effect: effect@ }) == editor_key(
                old(self)@,
                editor@,
                key,
                today@,
            ),
    {
        match key.code {
            KeyCode::Esc => Effect::Idle,
            KeyCode::Enter => self.commit_edit(editor, today),
            _ => {
                self.editor = Some(self.edit_field(editor, key));
                Effect::Idle
            },
        }
    }

    fn settle_tasks(&mut self)
        ensures
            final(self)@ == tasks_settled(old(self)@),
    {
        self.clear_multi_selection();
        self.normalize_main_selection();
        self.normalize_list_task_selection();
    }

    fn delete_task(&mut self, key: TaskKey, today: Date) -> (effect: Effect)
        ensures
            (Step { app: final(self)@, effect: effect@ }) == task_deleted(
                old(self)@,
                key,
                today@,
            ),
    {
        proof {
            reveal(task_deleted);
        }
        let changed = self.data.delete_task(key, today);
        if self.expanded_task_key == Some(key) {
            self.expanded_task_key = None;
        }
        self.normalize_main_selection();
        self.normalize_list_task_selection();
        if changed {
            Effect::Save(AfterSave::Report)
        } else {
            Effect::Idle
        }
    }

    fn delete_tasks(&mut self, keys: &Vec<TaskKey>, today: Date) -> (effect: Effect)
        ensures
            (Step { app: final(self)@, effect: effect@ }) == tasks_deleted(
                old(self)@,
                keys@,
                today@,
            ),
    {
        proof {
            reveal(tasks_deleted);
        }
        let changed = self.data.delete_tasks(keys, today);
        self.settle_tasks();
        if changed {
            Effect::Save(AfterSave::Report)
        } else {
            Effect::Idle
        }
    }

    fn delete_list(&mut self, list_id: u64, today: Date) -> (effect: Effect)
        ensures
            (Step { app: final(self)@, effect: effect@ }) == list_deleted(
                old(self)@,
                list_id,
                today@,
            ),
    {
        proof {
            reveal(list_deleted);
        }
        let changed = self.data.delete_task_list(list_id, today);
        if self.expanded_list_id == Some(list_id) {
            self.expanded_list_id = None;
            self.selected_list_task_idx = 0;
        }
        if let Some(key) = self.expanded_task_key {
            if key.list_id == list_id {
                self.expanded_task_key = None;
            }
        }
        self.normalize_list_selection();
        self.normalize_main_selection();
        if changed {
            Effect::Save(AfterSave::Report)
        } else {
            Effect::Idle
        }
    }

    /// Does what was confirmed.
    fn apply_confirmed_action(&mut self, action: ConfirmAction, today: Date) -> (effect: Effect)
        ensures
            (Step { app: final(self)@, effect: effect@ }) == confirmed(
                old(self)@,
                action@,
                today@,
            ),
    {
        match action {
            ConfirmAction::DeleteTask(key) => self.delete_task(key, today),
            ConfirmAction::DeleteTasks(keys) => self.delete_tasks(&keys, today),
            ConfirmAction::DeleteList(list_id) => self.delete_list(list_id, today),
        }
    }

    pub(crate) fn handle_confirm_key(
        &mut self,
        question: ConfirmState,
        key: KeyPress,
        today: Date,
    ) -> (effect: Effect)
        requires
            old(self)@.wf(),
            old(self)@.confirm is None,
        ensures
            (Step { app: final(self)@, effect: effect@ }) == confirm_key(
                AppModel { confirm: Some(question@), ..old(self)@ },
                question@,
                key,
                today@,
            ),
    {
        let yes = match key.code {
            KeyCode::Enter => true,
            KeyCode::Char(c) => c == 'y' || c == 'Y',
            _ => false,
        };
        let no = match key.code {
            KeyCode::Esc => true,
            KeyCode::Char(c) => c == 'n' || c == 'N',
            _ => false,
        };
        if yes {
            self.apply_confirmed_action(question.action, today)
        } else {
            if !no {
                self.confirm = Some(question);
            }
            Effect::Idle
        }
    }

    fn commit_multi_task_due_date(&mut self, state: MultiTaskEditState, today: Date) -> (effect:
        Effect)
        requires
            old(self)@.wf(),
            state@.input.wf(),
        ensures
            (Step { app: final(self)@, effect: effect@ }) == multi_date_taken(
                AppModel { multi_task_edit: Some(state@), ..old(self)@ },
                state@,
                today@,
            ),
    {
        proof {
            reveal(multi_date_taken);
        }
        match Date::parse(trim(state.input.text().as_str()).as_str()) {
            Some(day) => {
                let changed = self.data.update_tasks_due_date(&state.keys, day, today);
                self.settle_tasks();
                if changed {
                    Effect::Save(AfterSave::Report)
                } else {
                    Effect::Idle
                }
            },
            None => {
                self.multi_task_edit = Some(state);
                self.push_popup("invalid due date format; use YYYY-MM-DD".to_string());
                Effect::Idle
            },
        }
    }

    fn commit_multi_task_list_move(&mut self, state: MultiTaskEditState, today: Date) -> (effect:
        Effect)
        requires
            old(self)@.wf(),
            state@.input.wf(),
        ensures
            (Step { app: final(self)@, effect: effect@ }) == multi_list_taken(
                AppModel { multi_task_edit: Some(state@), ..old(self)@ },
                state@,
                today@,
            ),
    {
        proof {
            reveal(multi_list_taken);
        }
        match self.choose_list(&state.input, state.suggestion_index) {
            Some(list_id) => {
                let changed = self.data.move_tasks_to_list(&state.keys, list_id, today);
                self.settle_tasks();
                if changed {
                    Effect::Save(AfterSave::Report)
                } else {
                    Effect::Idle
                }
            },
            None => {
                self.multi_task_edit = Some(state);
                Effect::Idle
            },
        }
    }

    fn request_multi_task_delete(&mut self, state: MultiTaskEditState)
        ensures
            final(self)@ == multi_delete_asked(
                AppModel { multi_task_edit: Some(state@), ..old(self)@ },
                state@,
            ),
    {
        proof {
            reveal(multi_delete_asked);
        }
        let MultiTaskEditState { keys, mode, input, suggestion_index } = state;
        self.multi_task_edit = None;
        self.confirm = Some(
            ConfirmState {
                message: "Delete ".to_string().concat(
                    to_decimal(keys.len() as u64).as_str(),
                ).concat(" selected tasks?"),
                action: ConfirmAction::DeleteTasks(keys),
            },
        );
    }

    fn handle_multi_menu_key(&mut self, state: MultiTaskEditState, key: KeyPress)
        requires
            old(self)@.wf(),
            old(self)@.multi_task_edit is None,
            state@.input.wf(),
        ensures
            final(self)@ == multi_menu_key(
                AppModel { multi_task_edit: Some(state@), ..old(self)@ },
                state@,
                key,
            ),
    {
        let mut state = state;
        match key.code {
            KeyCode::Esc => {},
            KeyCode::Char(c) => {
                if c == 'r' {
                    state.mode = MultiTaskEditMode::DueDate;
                    state.input = LineInput::new();
                    self.multi_task_edit = Some(state);
                } else if c == 'l' {
                    state.mode = MultiTaskEditMode::ListName;
                    state.input = LineInput::new();
                    state.suggestion_index = 0;
                    self.multi_task_edit = Some(state);
                } else if c == 'd' {
                    self.request_multi_task_delete(state);
                } else {
                    self.multi_task_edit = Some(state);
                }
            },
            _ => {
                self.multi_task_edit = Some(state);
            },
        }
    }

    fn edit_multi_list(&self, state: MultiTaskEditState, key: KeyPress) -> (res: MultiTaskEditState)
        requires
            state@.input.wf(),
        ensures
            res@ == multi_list_key(self@.data.lists, state@, key),
            res@.input.wf(),
    {
        let mut state = state;
        match key.code {
            KeyCode::Up => {
                if state.suggestion_index > 0 {
                    state.suggestion_index = state.suggestion_index - 1;
                }
            },
            KeyCode::Down => {
                state.suggestion_index =
                self.suggestion_after(&state.input, state.suggestion_index);
            },
            KeyCode::Backspace | KeyCode::Delete => {
                state.input.edit(key.code);
                state.suggestion_index = 0;
            },
            KeyCode::Char(c) => {
                if !key.control {
                    state.input.insert(c);
                    state.suggestion_index = 0;
                }
            },
            _ => {
                state.input.edit(key.code);
            },
        }
        state
    }

    pub(crate) fn handle_multi_task_edit_key(
        &mut self,
        state: MultiTaskEditState,
        key: KeyPress,
        today: Date,
    ) -> (effect: Effect)
        requires
            old(self)@.wf(),
            old(self)@.multi_task_edit is None,
            state@.input.wf(),
        ensures
            (Step { app: final(self)@, effect: effect@ }) == multi_key(
                AppModel { multi_task_edit: Some(state@), ..old(self)@ },
                state@,
                key,
                today@,
            ),
    {
        let mut state = state;
        match state.mode {
            MultiTaskEditMode::Menu => {
                self.handle_multi_menu_key(state, key);
                Effect::Idle
            },
            MultiTaskEditMode::DueDate => match key.code {
                KeyCode::Esc => {
                    state.mode = MultiTaskEditMode::Menu;
                    self.multi_task_edit = Some(state);
                    Effect::Idle
                },
                KeyCode::Enter => self.commit_multi_task_due_date(state, today),
                KeyCode::Char(c) => {
                    if is_digit_char(c) || c == '-' {
                        state.input.insert(c);
                    }
                    self.multi_task_edit = Some(state);
                    Effect::Idle
                },
                _ => {
                    state.input.edit(key.code);
                    self.multi_task_edit = Some(state);
                    Effect::Idle
                },
            },
            MultiTaskEditMode::ListName => match key.code {
                KeyCode::Esc => {
                    state.mode = MultiTaskEditMode::Menu;
                    self.multi_task_edit = Some(state);
                    Effect::Idle
                },
                KeyCode::Enter => self.commit_multi_task_list_move(state, today),
                _ => {
                    self.multi_task_edit = Some(self.edit_multi_list(state, key));
                    Effect::Idle
                },
            },
        }
    }
}

} // verus!
