//! What a key does, wherever the program stands.

use vstd::prelude::*;

use crate::date::Date;
use crate::editing::{confirm_key, editor_key, multi_key};
use crate::effects::{idle, Effect, Step};
use crate::input::{KeyCode, KeyPress};
use crate::keys::{
    list_page_key, list_search_key, main_key, open_list_key, open_task_key, rows_accept, search_key,
};
use crate::soundness::keys_keep_the_state_sound;
use crate::state::{App, AppModel, Page};

verus! {

/// What a key does while messages are shown.
pub open spec fn popup_key(app: AppModel, key: KeyPress) -> AppModel {
    match key.code {
        KeyCode::Enter | KeyCode::Esc => AppModel { show_popup: false, ..app },
        _ => app,
    }
}

/// What a key does on the page in front.
pub open spec fn page_key(app: AppModel, key: KeyPress, today: int) -> Step {
    match app.page {
        Page::Main => if app.search_active {
            idle(search_key(app, key))
        } else {
            main_key(app, key, today)
        },
        Page::TaskLists => if app.list_search_active {
            idle(list_search_key(app, key))
        } else {
            list_page_key(app, key, today)
        },
    }
}

/// What a key does. What is in front takes it: several tasks being edited, then a question, then
/// messages, then a field being edited, then an open task, then an open list, then the page.
pub open spec fn pressed(app: AppModel, key: KeyPress, today: int) -> Step {
    if let Some(state) = app.multi_task_edit {
        multi_key(app, state, key, today)
    } else if let Some(question) = app.confirm {
        confirm_key(app, question, key, today)
    } else if app.show_popup {
        idle(popup_key(app, key))
    } else if let Some(editor) = app.editor {
        editor_key(app, editor, key, today)
    } else if let Some(task_key) = app.expanded_task_key {
        open_task_key(app, task_key, key, today)
    } else if let Some(list_id) = app.expanded_list_id {
        open_list_key(app, list_id, key, today)
    } else {
        page_key(app, key, today)
    }
}

/// Nothing stands in front of the open list or the page.
pub open spec fn is_uncovered(app: AppModel) -> bool {
    &&& app.multi_task_edit is None
    &&& app.confirm is None
    &&& !app.show_popup
    &&& app.editor is None
    &&& app.expanded_task_key is None
}

/// What a key asks for can be done: where it selects several rows, the first is among the rows, and
/// where it creates a task or a list, there is a number left.
pub open spec fn accepts(app: AppModel, key: KeyPress) -> bool {
    is_uncovered(app) ==> if app.expanded_list_id is Some || (app.page == Page::Main
        && !app.search_active) {
        rows_accept(app, key)
    } else if app.page == Page::TaskLists && !app.list_search_active {
        key.code == KeyCode::Char('n') ==> app.data.next_list_id < u64::MAX
    } else {
        true
    }
}

impl App {
    /// Tells whether what a key asks for can be done.
    pub fn accepts(&self, key: KeyPress) -> (res: bool)
        ensures
            res == accepts(self@, key),
    {
        if self.multi_task_edit.is_some() || self.confirm.is_some() || self.show_popup
            || self.editor.is_some() || self.expanded_task_key.is_some() {
            return true;
        }
        if self.expanded_list_id.is_some() || (self.page == Page::Main && !self.search_active) {
            return self.do_rows_accept(key);
        }
        if self.page == Page::TaskLists && !self.list_search_active {
            if let KeyCode::Char(c) = key.code {
                return c != 'n' || self.data.can_create_list();
            }
        }
        true
    }

    fn handle_page_key(&mut self, key: KeyPress, today: Date) -> (effect: Effect)
        requires
            old(self)@.wf(),
            is_uncovered(old(self)@),
            old(self)@.expanded_list_id is None,
            accepts(old(self)@, key),
        ensures
            (Step { app: final(self)@, effect: effect@ }) == page_key(old(self)@, key, today@),
    {
        match self.page {
            Page::Main => {
                if self.search_active {
                    self.handle_search_key(key);
                    Effect::Idle
                } else {
                    self.handle_main_key(key, today)
                }
            },
            Page::TaskLists => {
                if self.list_search_active {
                    self.handle_task_list_search_key(key);
                    Effect::Idle
                } else {
                    self.handle_task_list_page_key(key, today)
                }
            },
        }
    }

    fn handle_popup_key(&mut self, key: KeyPress)
        ensures
            final(self)@ == popup_key(old(self)@, key),
    {
        match key.code {
            KeyCode::Enter | KeyCode::Esc => {
                self.show_popup = false;
            },
            _ => {},
        }
    }

    /// Does what a key asks for, and tells what has to be done outside.
    pub fn handle_key(&mut self, key: KeyPress, today: Date) -> (effect: Effect)
        requires
            old(self)@.wf(),
            accepts(old(self)@, key),
        ensures
            (Step { app: final(self)@, effect: effect@ }) == pressed(old(self)@, key, today@),
            final(self)@.wf(),
    {
        let ghost before = self@;
        proof {
            keys_keep_the_state_sound(before, key, today@);
        }
        if let Some(state) = self.multi_task_edit.take() {
            assert(before == AppModel { multi_task_edit: Some(state@), ..self@ });
            return self.handle_multi_task_edit_key(state, key, today);
        }
        if let Some(question) = self.confirm.take() {
            assert(before == AppModel { confirm: Some(question@), ..self@ });
            return self.handle_confirm_key(question, key, today);
        }
        if self.show_popup {
            self.handle_popup_key(key);
            return Effect::Idle;
        }
        if let Some(editor) = self.editor.take() {
            assert(editor_key(before, editor@, key, today@) == editor_key(
                self@,
                editor@,
                key,
                today@,
            ));
            return self.handle_editor_key(editor, key, today);
        }
        if let Some(task_key) = self.expanded_task_key {
            return self.handle_task_expanded_key(task_key, key, today);
        }
        if let Some(list_id) = self.expanded_list_id {
            return self.handle_list_expanded_key(list_id, key, today);
        }
        self.handle_page_key(key, today)
    }

    /// Does what a key asks for, where that can be done, and tells what has to be done outside.
    pub fn press(&mut self, key: KeyPress, today: Date) -> (effect: Option<Effect>)
        requires
            old(self)@.wf(),
        ensures
            match effect {
                Some(done) => accepts(old(self)@, key) && (Step {
                    app: final(self)@,
                    effect: done@,
                }) == pressed(old(self)@, key, today@),
                None => !accepts(old(self)@, key) && final(self)@ == old(self)@,
            },
            final(self)@.wf(),
    {
        if self.accepts(key) {
            Some(self.handle_key(key, today))
        } else {
            None
        }
    }
}

} // verus!
